use ganbare_backend::text::{chars_of, replace_all, replace_chars};

#[test]
fn replace_all_replaces_every_occurrence() {
    assert_eq!(replace_all("aXbXc", "X", "--"), "a--b--c");
}

#[test]
fn replace_all_scans_left_to_right_without_overlap() {
    assert_eq!(replace_all("aaa", "aa", "b"), "ba");
    assert_eq!(replace_all("aaaa", "aa", "b"), "bb");
}

#[test]
fn replace_all_with_empty_pattern_inserts_everywhere() {
    assert_eq!(replace_all("ab", "", "-"), "-a-b-");
    assert_eq!(replace_all("", "", "-"), "-");
}

#[test]
fn replace_all_without_occurrence_keeps_text() {
    assert_eq!(replace_all("no links here", "http://x", "/api/images/y"), "no links here");
}

#[test]
fn replace_all_agrees_with_str_replace() {
    let cases = [
        ("Testing \"http://a/b.jpg\" testing \"http://a/b.jpg\"", "http://a/b.jpg", "/api/images/f.jpg"),
        ("äöü http://ä ü", "http://ä", "X"),
        ("abcabcab", "cab", ""),
        ("pattern longer", "pattern longer than text", "x"),
    ];
    for (s, from, to) in cases.iter() {
        assert_eq!(replace_all(s, from, to), s.replace(from, to));
    }
}

#[test]
fn chars_of_and_replace_chars() {
    let s = chars_of("héllo");
    assert_eq!(s, vec!['h', 'é', 'l', 'l', 'o']);
    let r = replace_chars(&s, &vec!['l'], &vec!['L', 'L']);
    assert_eq!(r.iter().collect::<String>(), "héLLLLo");
}
