//! The records that the database stores: the rows of its tables, the
//! values of new rows, and changes to rows.
use vstd::prelude::*;

verus! {

/// A point in time in UTC: whole seconds since the Unix epoch and the
/// nanoseconds after them, as `chrono::DateTime<chrono::Utc>` reports them through
/// `timestamp` and `timestamp_subsec_nanos`.
#[derive(Debug, Clone, Copy, PartialEq, Eq, Structural)]
pub struct UtcTime {
    pub secs: i64,
    pub nanos: u32,
}

/// The values of a new row of the `users` table.
pub struct NewUser<'a> {
    pub email: &'a str,
}

/// A row of the `users` table.
#[derive(Debug)]
pub struct User {
    pub id: i32,
    pub email: String,
    pub joined: UtcTime,
}

/// A row of the `passwords` table.
#[derive(Debug)]
pub struct Password {
    pub id: i32,
    pub password_hash: Vec<u8>,
    pub salt: Vec<u8>,
    pub initial_rounds: i16,
    pub extra_rounds: i16,
}

/// The values of a new row of the `sessions` table.
#[derive(Debug)]
pub struct NewSession<'a> {
    pub proposed_token: &'a [u8],
    pub current_token: &'a [u8],
    pub retired_token: &'a [u8],
    pub user_id: i32,
    pub started: UtcTime,
    pub last_seen: UtcTime,
    pub last_ip: &'a [u8],
}

/// A row of the `sessions` table.
#[derive(Debug)]
pub struct Session {
    pub id: i32,
    pub proposed_token: Vec<u8>,
    pub current_token: Vec<u8>,
    pub retired_token: Vec<u8>,
    pub access_version: i32,
    pub user_id: i32,
    pub started: UtcTime,
    pub last_seen: UtcTime,
    pub last_ip: Vec<u8>,
}

/// A row of the `pending_email_confirms` table.
#[derive(Debug)]
pub struct PendingEmailConfirm {
    pub secret: String,
    pub email: String,
    pub groups: Vec<i32>,
    pub added: UtcTime,
}

/// The values of a new row of the `pending_email_confirms` table.
pub struct NewPendingEmailConfirm<'a> {
    pub secret: &'a str,
    pub email: &'a str,
    pub groups: &'a [i32],
}

/// A row of the `user_groups` table.
#[derive(Debug)]
pub struct UserGroup {
    pub id: i32,
    pub group_name: String,
    pub anonymous: bool,
}

/// A row of the `group_memberships` table.
#[derive(Debug)]
pub struct GroupMembership {
    pub user_id: i32,
    pub group_id: i32,
}

/// A row of the `anon_aliases` table.
#[derive(Debug)]
pub struct AnonAliases {
    pub id: i32,
    pub name: String,
    pub user_id: Option<i32>,
    pub group_id: Option<i32>,
}

/// The values of a new row of the `skill_nuggets` table.
pub struct NewSkillNugget<'a> {
    pub skill_summary: &'a str,
}

/// A row of the `skill_nuggets` table.
#[derive(Debug)]
pub struct SkillNugget {
    pub id: i32,
    pub skill_summary: String,
}

/// The values of a new row of the `narrators` table.
pub struct NewNarrator<'a> {
    pub name: &'a str,
}

/// A row of the `narrators` table.
#[derive(Debug)]
pub struct Narrator {
    pub id: i32,
    pub name: String,
}

/// The values of a new row of the `audio_files` table.
pub struct NewAudioFile<'a> {
    pub narrators_id: i32,
    pub bundle_id: i32,
    pub file_path: &'a str,
    pub mime: &'a str,
}

/// A row of the `audio_files` table.
#[derive(Debug)]
pub struct AudioFile {
    pub id: i32,
    pub narrators_id: i32,
    pub bundle_id: i32,
    pub file_path: String,
    pub mime: String,
}

/// A row of the `audio_bundles` table.
#[derive(Debug)]
pub struct AudioBundle {
    pub id: i32,
    pub listname: String,
}

/// The values of a new row of the `audio_bundles` table.
pub struct NewAudioBundle<'a> {
    pub listname: &'a str,
}

/// The values of a new row of the `quiz_questions` table.
#[derive(Debug)]
pub struct NewQuizQuestion<'a> {
    pub skill_id: i32,
    pub q_name: &'a str,
    pub q_explanation: &'a str,
    pub question_text: &'a str,
    pub skill_level: i32,
}

/// A row of the `quiz_questions` table.
#[derive(Debug)]
pub struct QuizQuestion {
    pub id: i32,
    pub skill_id: i32,
    pub q_name: String,
    pub q_explanation: String,
    pub question_text: String,
    pub published: bool,
    pub skill_level: i32,
}

/// A change to a row of the `quiz_questions` table: `None` leaves a column as it is.
#[derive(Debug)]
pub struct UpdateQuestion {
    pub skill_id: Option<i32>,
    pub q_name: Option<String>,
    pub q_explanation: Option<String>,
    pub question_text: Option<String>,
    pub published: Option<bool>,
    pub skill_level: Option<i32>,
}

/// The values of a new row of the `question_answers` table.
#[derive(Debug)]
pub struct NewAnswer<'a> {
    pub question_id: i32,
    pub a_audio_bundle: Option<i32>,
    pub q_audio_bundle: i32,
    pub answer_text: &'a str,
}

/// A row of the `question_answers` table.
#[derive(Debug)]
pub struct Answer {
    pub id: i32,
    pub question_id: i32,
    pub a_audio_bundle: Option<i32>,
    pub q_audio_bundle: i32,
    pub answer_text: String,
}

/// A change to a row of the `question_answers` table: `None` leaves a column as it is.
#[derive(Debug)]
pub struct UpdateAnswer {
    pub question_id: Option<i32>,
    pub a_audio_bundle: Option<Option<i32>>,
    pub q_audio_bundle: Option<i32>,
    pub answer_text: Option<String>,
}

/// The values of a new row of the `words` table.
pub struct NewWord<'a> {
    pub word: &'a str,
    pub explanation: &'a str,
    pub audio_bundle: i32,
    pub skill_nugget: i32,
}

/// A row of the `words` table.
#[derive(Debug)]
pub struct Word {
    pub id: i32,
    pub word: String,
    pub explanation: String,
    pub audio_bundle: i32,
    pub skill_nugget: i32,
    pub published: bool,
}

/// A change to a row of the `words` table: `None` leaves a column as it is.
#[derive(Debug)]
pub struct UpdateWord {
    pub word: Option<String>,
    pub explanation: Option<String>,
    pub audio_bundle: Option<i32>,
    pub skill_nugget: Option<i32>,
    pub published: Option<bool>,
}

/// A row of the `due_items` table.
#[derive(Debug)]
pub struct DueItem {
    pub id: i32,
    pub user_id: i32,
    pub due_date: UtcTime,
    pub due_delay: i32,
    pub correct_streak: i32,
    pub item_type: String,
}

/// The values of a new row of the `due_items` table.
pub struct NewDueItem {
    pub user_id: i32,
    pub due_date: UtcTime,
    pub due_delay: i32,
    pub correct_streak: i32,
    pub item_type: String,
}

/// A row of the `pending_items` table.
#[derive(Debug)]
pub struct PendingItem {
    pub id: i32,
    pub user_id: i32,
    pub audio_file_id: i32,
    pub asked_date: UtcTime,
    pub pending: bool,
    pub item_type: String,
}

/// The values of a new row of the `pending_items` table.
#[derive(Debug)]
pub struct NewPendingItem<'a> {
    pub user_id: i32,
    pub audio_file_id: i32,
    pub item_type: &'a str,
}

/// A row of the `q_asked_data` table.
#[derive(Debug)]
pub struct QAskedData {
    pub id: i32,
    pub question_id: i32,
    pub correct_qa_id: i32,
}

/// A row of the `q_answered_data` table.
#[derive(Debug)]
pub struct QAnsweredData {
    pub id: i32,
    pub answered_qa_id: Option<i32>,
    pub answered_date: UtcTime,
    pub active_answer_time_ms: i32,
    pub full_answer_time_ms: i32,
}

/// A row of the `e_asked_data` table.
#[derive(Debug)]
pub struct EAskedData {
    pub id: i32,
    pub word_id: i32,
}

/// A row of the `e_answered_data` table.
#[derive(Debug)]
pub struct EAnsweredData {
    pub id: i32,
    pub answered_date: UtcTime,
    pub active_answer_time_ms: i32,
    pub full_answer_time_ms: i32,
    pub audio_times: i32,
    pub answer_level: i32,
}

/// A row of the `w_asked_data` table.
#[derive(Debug)]
pub struct WAskedData {
    pub id: i32,
    pub word_id: i32,
    pub show_accents: bool,
}

/// A row of the `w_answered_data` table.
#[derive(Debug)]
pub struct WAnsweredData {
    pub id: i32,
    pub answer_time_ms: i32,
    pub audio_times: i32,
    pub checked_date: UtcTime,
}

/// A row of the `question_data` table.
#[derive(Debug)]
pub struct QuestionData {
    pub question_id: i32,
    pub due: i32,
}

/// A row of the `exercise_data` table.
#[derive(Debug)]
pub struct ExerciseData {
    pub word_id: i32,
    pub due: i32,
}

/// The values of a new row of the `skill_data` table.
pub struct NewSkillData {
    pub user_id: i32,
    pub skill_nugget: i32,
    pub skill_level: i32,
}

/// A row of the `skill_data` table.
#[derive(Debug)]
pub struct SkillData {
    pub user_id: i32,
    pub skill_nugget: i32,
    pub skill_level: i32,
}

/// A row of the `user_metrics` table.
#[derive(Debug)]
pub struct UserMetrics {
    pub id: i32,
    pub new_words_since_break: i32,
    pub new_sentences_since_break: i32,
    pub new_words_today: i32,
    pub new_sentences_today: i32,
    pub break_until: UtcTime,
    pub today: UtcTime,
}

/// The values of a new row of the `user_metrics` table.
pub struct NewUserMetrics {
    pub id: i32,
}

/// A row of the `events` table.
pub struct Event {
    pub id: i32,
    pub name: String,
    pub published: bool,
}

/// The values of a new row of the `events` table.
pub struct NewEvent<'a> {
    pub name: &'a str,
}

/// A row of the `event_experiences` table.
#[derive(Debug)]
pub struct EventExperience {
    pub user_id: i32,
    pub event_id: i32,
    pub event_init: UtcTime,
    pub event_finish: Option<UtcTime>,
}

/// The values of a new row of the `event_experiences` table.
pub struct NewEventExperience {
    pub user_id: i32,
    pub event_id: i32,
}

/// A row of the `event_userdata` table.
#[derive(Debug)]
pub struct EventUserdata {
    pub id: i32,
    pub user_id: i32,
    pub event_id: i32,
    pub created: UtcTime,
    pub key: Option<String>,
    pub data: String,
}

/// The values of a new row of the `event_userdata` table.
pub struct NewEventUserdata<'a> {
    pub user_id: i32,
    pub event_id: i32,
    pub key: Option<&'a str>,
    pub data: &'a str,
}

/// A change to a row of the `event_userdata` table: `None` leaves a column as it is.
pub struct UpdateEventUserdata<'a> {
    pub data: &'a str,
}

} // verus!
