use ganbare_backend::images::{
    choose_extension, image_filename_at, image_filename_for, image_filename_pattern, image_url, is_free_of_percent,
    new_image_filename, MediaKind, TimeParts, TAG_LEN,
};

fn at(year: i32, mon: i32, mday: i32, hour: i32, min: i32, sec: i32) -> TimeParts {
    TimeParts {
        tm_sec: sec,
        tm_min: min,
        tm_hour: hour,
        tm_mday: mday,
        tm_mon: mon,
        tm_year: year - 1900,
        tm_wday: 0,
        tm_yday: 0,
        tm_isdst: 0,
        tm_utcoff: 0,
        tm_nsec: 0,
    }
}

#[test]
fn extension_follows_image_type() {
    let url_ext = Some(".jpeg".to_string());
    assert_eq!(choose_extension(Some(MediaKind::Png), &url_ext), ".png");
    assert_eq!(choose_extension(Some(MediaKind::Jpeg), &url_ext), ".jpg");
    assert_eq!(choose_extension(Some(MediaKind::Gif), &url_ext), ".gif");
}

#[test]
fn extension_falls_back_to_url_then_default() {
    assert_eq!(choose_extension(Some(MediaKind::Other), &Some(".bmp".to_string())), ".bmp");
    assert_eq!(choose_extension(None, &Some(".webp".to_string())), ".webp");
    assert_eq!(choose_extension(None, &None), ".noextension");
    assert_eq!(choose_extension(Some(MediaKind::Other), &None), ".noextension");
}

#[test]
fn image_url_prefixes_api_path() {
    assert_eq!(image_url("2017-03-05T12-34-56ZabcdefghiJ.jpg"), "/api/images/2017-03-05T12-34-56ZabcdefghiJ.jpg");
}

#[test]
fn filename_pattern_is_timestamp_tag_extension() {
    assert_eq!(image_filename_pattern("abcdefghij", ".png"), "%FT%H-%M-%SZabcdefghij.png");
}

#[test]
fn filename_at_fixed_time() {
    let t = at(2017, 2, 5, 12, 34, 6);
    assert_eq!(image_filename_at("Ab3dE5gH9j", ".jpg", &t), "2017-03-05T12-34-06ZAb3dE5gH9j.jpg");
}

#[test]
fn percent_check() {
    assert!(is_free_of_percent(".jpg"));
    assert!(!is_free_of_percent(".j%g"));
    assert!(is_free_of_percent(""));
}

#[test]
fn new_filename_has_timestamp_tag_and_extension() {
    let name = new_image_filename(".jpg").expect("the clock gives a formattable year");
    let chars: Vec<char> = name.chars().collect();
    assert_eq!(chars.len(), 20 + TAG_LEN + 4);
    assert_eq!(chars[4], '-');
    assert_eq!(chars[7], '-');
    assert_eq!(chars[10], 'T');
    assert_eq!(chars[13], '-');
    assert_eq!(chars[16], '-');
    assert_eq!(chars[19], 'Z');
    assert!(chars[20..20 + TAG_LEN].iter().all(|c| c.is_ascii_alphanumeric()));
    assert!(name.ends_with(".jpg"));
    assert!(!name.contains('%'));
}

#[test]
fn new_filenames_differ_in_their_tags() {
    let a = new_image_filename(".png").unwrap();
    let b = new_image_filename(".png").unwrap();
    assert_ne!(a[20..30].to_string(), b[20..30].to_string());
}

#[test]
fn filename_for_refuses_unformattable_year() {
    let mut t = at(2017, 2, 5, 12, 34, 6);
    assert_eq!(image_filename_for("abcdefghij", ".png", &t), Some("2017-03-05T12-34-06Zabcdefghij.png".to_string()));
    t.tm_year = i32::MAX - 1899;
    assert_eq!(image_filename_for("abcdefghij", ".png", &t), None);
    t.tm_year = i32::MAX - 1900;
    assert_eq!(
        image_filename_for("t", "", &t),
        Some(format!("{}-03-05T12-34-06Zt", i32::MAX))
    );
}

#[test]
fn filename_at_negative_and_short_years() {
    let t = at(-5, 0, 1, 0, 0, 60);
    assert_eq!(image_filename_at("x", ".gif", &t), "-5-01-01T00-00-60Zx.gif");
    let t = at(999, 11, 31, 23, 59, 59);
    assert_eq!(image_filename_at("", "", &t), "999-12-31T23-59-59Z");
}
