use ganbare_backend::cache::LinkCache;

#[test]
fn empty_cache_has_nothing() {
    let c = LinkCache::new();
    assert_eq!(c.get(&"http://a".to_string()), None);
    assert!(!c.contains(&"http://a".to_string()));
}

#[test]
fn insert_then_get() {
    let mut c = LinkCache::new();
    c.insert("http://a".to_string(), "/api/images/a.png".to_string());
    c.insert("http://b".to_string(), "/api/images/b.png".to_string());
    assert_eq!(c.get(&"http://a".to_string()), Some("/api/images/a.png".to_string()));
    assert_eq!(c.get(&"http://b".to_string()), Some("/api/images/b.png".to_string()));
    assert!(c.contains(&"http://b".to_string()));
    assert_eq!(c.get(&"http://c".to_string()), None);
}

#[test]
fn insert_replaces_earlier_target() {
    let mut c = LinkCache::new();
    c.insert("http://a".to_string(), "/api/images/old.png".to_string());
    c.insert("http://a".to_string(), "/api/images/new.png".to_string());
    assert_eq!(c.get(&"http://a".to_string()), Some("/api/images/new.png".to_string()));
}
