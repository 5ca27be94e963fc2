//! Verified core of the ganbare back end's content management: the records
//! that the database stores, the checks and records behind quiz and word
//! management, and the link sanitizer that rewrites outbound image links.
pub mod text;
pub mod cache;
pub mod images;
pub mod links;
pub mod models;
pub mod manage;
