use ganbare_backend::cache::LinkCache;
use ganbare_backend::images::{choose_extension, new_image_filename, MediaKind};
use ganbare_backend::links::{
    find_links, links_from_groups, LinkMatch, LinkPattern, LinkSanitizer, SanitizeStep,
};

fn pattern() -> LinkPattern {
    LinkPattern::new().expect("the link pattern compiles")
}

/// Runs the sanitizer to the end; each download is "saved" under a name made
/// from the image type the fake server announces.
fn sanitize(text: &str, cache: &mut LinkCache, downloads: &mut Vec<String>) -> String {
    let p = pattern();
    let mut s = LinkSanitizer::start(&p, text);
    loop {
        match s.advance(cache) {
            SanitizeStep::Finished(t) => return t,
            SanitizeStep::Download(link) => {
                downloads.push(link.url.clone());
                let ext = choose_extension(Some(MediaKind::Jpeg), &link.extension);
                let name = new_image_filename(&ext).unwrap();
                s.resolve(cache, &name);
            }
        }
    }
}

#[test]
fn finds_quoted_links_with_extensions() {
    let links = find_links(
        &pattern(),
        "Testing \"http://a.com/x.jpg\" and 'https://b.org/p' but not http://c.com/y.png",
    );
    assert_eq!(links.len(), 2);
    assert_eq!(links[0].url, "http://a.com/x.jpg");
    assert_eq!(links[0].extension, Some(".jpg".to_string()));
    assert_eq!(links[1].url, "https://b.org/p");
    assert_eq!(links[1].extension, None);
}

#[test]
fn no_links_in_plain_text() {
    assert!(find_links(&pattern(), "nothing to see here").is_empty());
}

#[test]
fn groups_without_url_are_dropped() {
    let links = links_from_groups(vec![
        (None, Some(".x".to_string())),
        (Some("http://a".to_string()), None),
    ]);
    assert_eq!(links.len(), 1);
    assert_eq!(links[0].url, "http://a");
}

#[test]
fn duplicate_copies_link() {
    let m = LinkMatch { url: "http://a/b.gif".to_string(), extension: Some(".gif".to_string()) };
    let d = m.duplicate();
    assert_eq!(d.url, m.url);
    assert_eq!(d.extension, m.extension);
}

#[test]
fn text_without_links_is_unchanged() {
    let mut cache = LinkCache::new();
    let mut downloads = Vec::new();
    assert_eq!(sanitize("plain text", &mut cache, &mut downloads), "plain text");
    assert!(downloads.is_empty());
}

#[test]
fn sanitize_links_offline_scenario() {
    let mut cache = LinkCache::new();
    let mut downloads = Vec::new();
    let text = "Testing \"http://static4.depositphotos.com/1016045/326/i/950/depositphotos_3267906-stock-photo-cool-emoticon.jpg\" testing";
    let result = sanitize(text, &mut cache, &mut downloads);
    assert_eq!(downloads.len(), 1);
    let result2 = sanitize(text, &mut cache, &mut downloads);
    assert_eq!(downloads.len(), 1);
    assert_eq!(result.len(), 64);
    assert_eq!(result, result2);
    let result3 = sanitize(
        "Testing \"https://c2.staticflickr.com/2/1216/1408154388_b34a66bdcf.jpg\" testing",
        &mut cache,
        &mut downloads,
    );
    assert_eq!(downloads.len(), 2);
    assert_eq!(result3.len(), 64);
    assert_ne!(result, result3);
    assert!(result.starts_with("Testing \"/api/images/"));
    assert!(result.ends_with(".jpg\" testing"));
}

#[test]
fn repeated_link_is_downloaded_once() {
    let mut cache = LinkCache::new();
    let mut downloads = Vec::new();
    let text = "'http://x.org/a.png' and again \"http://x.org/a.png\"";
    let result = sanitize(text, &mut cache, &mut downloads);
    assert_eq!(downloads, vec!["http://x.org/a.png".to_string()]);
    assert!(!result.contains("http://"));
    let target = cache.get(&"http://x.org/a.png".to_string()).unwrap();
    assert_eq!(result, format!("'{}' and again \"{}\"", target, target));
}

#[test]
fn cached_link_is_rewritten_without_download() {
    let mut cache = LinkCache::new();
    cache.insert("http://x.org/a.png".to_string(), "/api/images/known.png".to_string());
    let mut downloads = Vec::new();
    let result = sanitize("see \"http://x.org/a.png\"", &mut cache, &mut downloads);
    assert!(downloads.is_empty());
    assert_eq!(result, "see \"/api/images/known.png\"");
}

#[test]
fn resolve_overwrites_link_recorded_meanwhile() {
    let p = pattern();
    let mut cache = LinkCache::new();
    let mut s = LinkSanitizer::start(&p, "see 'http://x.org/a.png'");
    match s.advance(&cache) {
        SanitizeStep::Download(link) => assert_eq!(link.url, "http://x.org/a.png"),
        SanitizeStep::Finished(_) => panic!("the link is not in the table"),
    }
    cache.insert("http://x.org/a.png".to_string(), "/api/images/other.png".to_string());
    s.resolve(&mut cache, "mine.png");
    assert_eq!(cache.get(&"http://x.org/a.png".to_string()), Some("/api/images/mine.png".to_string()));
    match s.advance(&cache) {
        SanitizeStep::Finished(t) => assert_eq!(t, "see '/api/images/mine.png'"),
        SanitizeStep::Download(_) => panic!("every link is done"),
    }
}
