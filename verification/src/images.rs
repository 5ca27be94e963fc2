//! Naming of downloaded images: the file extension chosen from the
//! response's media type, the time-stamped random file name, and the local
//! URL the image is served under.
use vstd::prelude::*;

verus! {

/// The media type that a download's `Content-Type` header announced, as far
/// as the naming of the saved file is concerned.
#[derive(Debug, Clone, Copy, PartialEq, Eq, Structural)]
pub enum MediaKind {
    /// `image/png`
    Png,
    /// `image/jpeg`
    Jpeg,
    /// `image/gif`
    Gif,
    /// any other media type
    Other,
}

/// The extension a downloaded file gets: the image type's own for PNG, JPEG
/// and GIF, else the extension the URL ended with, else `.noextension`.
pub open spec fn extension_for(content: Option<MediaKind>, url_extension: Option<Seq<char>>) -> Seq<
    char,
> {
    match content {
        Some(MediaKind::Png) => ".png"@,
        Some(MediaKind::Jpeg) => ".jpg"@,
        Some(MediaKind::Gif) => ".gif"@,
        _ => match url_extension {
            Some(e) => e,
            None => ".noextension"@,
        },
    }
}

/// The characters of an optional string.
pub open spec fn option_view(o: Option<String>) -> Option<Seq<char>> {
    match o {
        Some(s) => Some(s@),
        None => None,
    }
}

/// Chooses the extension of a downloaded file (see [`extension_for`]).
pub fn choose_extension(content: Option<MediaKind>, url_extension: &Option<String>) -> (e: String)
    ensures
        e@ == extension_for(content, option_view(*url_extension)),
        content == Some(MediaKind::Png) ==> e@ == ".png"@,
        content == Some(MediaKind::Jpeg) ==> e@ == ".jpg"@,
        content == Some(MediaKind::Gif) ==> e@ == ".gif"@,
        (content is None || content == Some(MediaKind::Other)) ==> e@ == (match url_extension {
            Some(x) => x@,
            None => ".noextension"@,
        }),
{
    match content {
        Some(MediaKind::Png) => String::from_str(".png"),
        Some(MediaKind::Jpeg) => String::from_str(".jpg"),
        Some(MediaKind::Gif) => String::from_str(".gif"),
        _ => match url_extension {
            Some(e) => e.clone(),
            None => String::from_str(".noextension"),
        },
    }
}

/// The extension of an image type announced by the server does not depend
/// on the URL: PNG, JPEG and GIF always give `.png`, `.jpg` and `.gif`.
/// Otherwise the URL's own extension is kept, and without one the file gets
/// `.noextension`.
pub proof fn lemma_extension_choice(url_extension: Option<Seq<char>>, other: Option<Seq<char>>)
    ensures
        extension_for(Some(MediaKind::Png), url_extension) == ".png"@,
        extension_for(Some(MediaKind::Jpeg), url_extension) == ".jpg"@,
        extension_for(Some(MediaKind::Gif), url_extension) == ".gif"@,
        forall|k: MediaKind|
            k != MediaKind::Other ==> extension_for(Some(k), url_extension) == extension_for(
                Some(k),
                other,
            ),
        forall|e: Seq<char>|
            extension_for(None, Some(e)) == e && extension_for(Some(MediaKind::Other), Some(e))
                == e,
        extension_for(None, None) == ".noextension"@,
        extension_for(Some(MediaKind::Other), None) == ".noextension"@,
{
}

/// The path prefix under which saved images are served.
pub open spec fn image_url_prefix() -> Seq<char> {
    "/api/images/"@
}

/// The local URL of a saved image file.
pub open spec fn image_url_of(filename: Seq<char>) -> Seq<char> {
    image_url_prefix() + filename
}

/// The local URL of the saved image file `filename`.
pub fn image_url(filename: &str) -> (u: String)
    ensures
        u@ == image_url_of(filename@),
{
    String::from_str("/api/images/").concat(filename)
}

/// The time-stamp part of a saved file's name, in `strftime` notation.
pub open spec fn timestamp_format() -> Seq<char> {
    "%FT%H-%M-%SZ"@
}

/// The `strftime` pattern of a saved file's name: the time stamp, a random
/// tag and the extension.
pub open spec fn filename_pattern(tag: Seq<char>, extension: Seq<char>) -> Seq<char> {
    timestamp_format() + tag + extension
}

/// Builds the `strftime` pattern of a saved file's name from its random tag
/// and its extension.
pub fn image_filename_pattern(tag: &str, extension: &str) -> (p: String)
    ensures
        p@ == filename_pattern(tag@, extension@),
{
    String::from_str("%FT%H-%M-%SZ").concat(tag).concat(extension)
}

/// The characters that a random tag is drawn from.
pub open spec fn is_ascii_alphanumeric(c: char) -> bool {
    ('a' <= c && c <= 'z') || ('A' <= c && c <= 'Z') || ('0' <= c && c <= '9')
}

/// The length of a saved file's random tag.
pub const TAG_LEN: usize = 10;

/// `n` characters drawn at random from the ASCII letters and digits.
///
/// Calls `rand::distributions::DistString::sample_string` of
/// `rand::distributions::Alphanumeric` on the thread-local generator. What is
/// claimed: the result has `n` characters, each an ASCII letter or digit.
/// Which ones is left open.
#[verifier::external_body]
fn random_alphanumeric(n: usize) -> (s: String)
    ensures
        s@.len() == n,
        forall|i: int| 0 <= i < s@.len() ==> is_ascii_alphanumeric(#[trigger] s@[i]),
{
    rand::distributions::DistString::sample_string(
        &rand::distributions::Alphanumeric,
        &mut rand::thread_rng(),
        n,
    )
}

/// A broken-down local time, as `time::Tm` holds it.
#[derive(Debug, Clone, Copy, PartialEq, Eq, Structural)]
pub struct TimeParts {
    /// seconds after the minute, 0 to 60
    pub tm_sec: i32,
    /// minutes after the hour, 0 to 59
    pub tm_min: i32,
    /// hours after midnight, 0 to 23
    pub tm_hour: i32,
    /// day of the month, 1 to 31
    pub tm_mday: i32,
    /// months since January, 0 to 11
    pub tm_mon: i32,
    /// years since 1900
    pub tm_year: i32,
    /// days since Sunday, 0 to 6
    pub tm_wday: i32,
    /// days since January 1, 0 to 365
    pub tm_yday: i32,
    /// daylight saving time flag
    pub tm_isdst: i32,
    /// seconds east of UTC
    pub tm_utcoff: i32,
    /// nanoseconds after the second
    pub tm_nsec: i32,
}

/// The ranges that `time::Tm` documents for its fields.
pub open spec fn documented_ranges(t: TimeParts) -> bool {
    &&& 0 <= t.tm_sec <= 60
    &&& 0 <= t.tm_min <= 59
    &&& 0 <= t.tm_hour <= 23
    &&& 1 <= t.tm_mday <= 31
    &&& 0 <= t.tm_mon <= 11
    &&& 0 <= t.tm_wday <= 6
    &&& 0 <= t.tm_yday <= 365
    &&& 0 <= t.tm_nsec <= 999_999_999
}

/// The current local time.
///
/// Calls `time::now`. What is claimed: the fields lie in the ranges that
/// `time::Tm` documents. The time itself is left open.
#[verifier::external_body]
fn current_time() -> (t: TimeParts)
    ensures
        documented_ranges(t),
{
    let tm = time::now();
    TimeParts {
        tm_sec: tm.tm_sec,
        tm_min: tm.tm_min,
        tm_hour: tm.tm_hour,
        tm_mday: tm.tm_mday,
        tm_mon: tm.tm_mon,
        tm_year: tm.tm_year,
        tm_wday: tm.tm_wday,
        tm_yday: tm.tm_yday,
        tm_isdst: tm.tm_isdst,
        tm_utcoff: tm.tm_utcoff,
        tm_nsec: tm.tm_nsec,
    }
}

/// The conversions that a saved file's name pattern may use after `%`:
/// `%F` (date), `%H` (hour), `%M` (minute) and `%S` (second).
pub open spec fn is_time_conversion(c: char) -> bool {
    c == 'F' || c == 'H' || c == 'M' || c == 'S'
}

/// A `strftime` pattern whose conversions are all among
/// [`is_time_conversion`]; every other character stands for itself.
pub open spec fn time_pattern(f: Seq<char>) -> bool
    decreases f.len(),
{
    if f.len() == 0 {
        true
    } else if f[0] == '%' {
        f.len() >= 2 && is_time_conversion(f[1]) && time_pattern(f.skip(2))
    } else {
        time_pattern(f.skip(1))
    }
}

/// The character of a decimal digit.
pub open spec fn digit_char(d: int) -> char {
    (d + 48) as char
}

/// The decimal digits of a natural number, without leading zeros.
pub open spec fn decimal_digits(n: nat) -> Seq<char>
    decreases n,
{
    if n < 10 {
        seq![digit_char(n as int)]
    } else {
        decimal_digits(n / 10) + seq![digit_char((n % 10) as int)]
    }
}

/// An integer as `{}` writes it: a minus sign if negative, then its decimal
/// digits.
pub open spec fn decimal(n: int) -> Seq<char> {
    if n < 0 {
        seq!['-'] + decimal_digits((-n) as nat)
    } else {
        decimal_digits(n as nat)
    }
}

/// A number from 0 to 99 as `{:02}` writes it: two digits.
pub open spec fn two_digits(n: int) -> Seq<char> {
    seq![digit_char(n / 10), digit_char(n % 10)]
}

/// What `%F` writes: the year, a dash, the month as two digits, a dash and
/// the day as two digits.
pub open spec fn date_text(t: TimeParts) -> Seq<char> {
    decimal(t.tm_year + 1900) + seq!['-'] + two_digits(t.tm_mon + 1) + seq!['-'] + two_digits(
        t.tm_mday as int,
    )
}

/// What a time conversion writes.
pub open spec fn conversion_text(c: char, t: TimeParts) -> Seq<char> {
    if c == 'F' {
        date_text(t)
    } else if c == 'H' {
        two_digits(t.tm_hour as int)
    } else if c == 'M' {
        two_digits(t.tm_min as int)
    } else if c == 'S' {
        two_digits(t.tm_sec as int)
    } else {
        Seq::empty()
    }
}

/// What `strftime` writes for a time pattern: each conversion replaced by
/// its text, every other character as it is.
pub open spec fn time_pattern_text(f: Seq<char>, t: TimeParts) -> Seq<char>
    decreases f.len(),
{
    if f.len() == 0 {
        Seq::empty()
    } else if f[0] == '%' && f.len() >= 2 {
        conversion_text(f[1], t) + time_pattern_text(f.skip(2), t)
    } else {
        seq![f[0]] + time_pattern_text(f.skip(1), t)
    }
}

/// The error of `time::strftime`.
#[verifier::external_type_specification]
#[verifier::external_body]
pub struct ExTimeParseError(time::ParseError);

/// Formats a broken-down time by a time pattern.
///
/// Calls `time::strftime`. What is claimed, from its source: for a pattern
/// whose conversions are only `%F`, `%H`, `%M` and `%S`, a time whose fields
/// lie in `time::Tm`'s documented ranges, and a year that leaves room for the
/// `+ 1900` of `%F`, it succeeds and writes [`time_pattern_text`]: `%F` as
/// the year (`{}` of `tm_year + 1900`), `-`, `{:02}` of `tm_mon + 1`, `-`,
/// `{:02}` of `tm_mday`; `%H`, `%M`, `%S` as `{:02}` of the hour, minute and
/// second; every other character as it is. Other patterns are not covered.
#[verifier::external_body]
fn format_time(format: &str, t: &TimeParts) -> (r: Result<String, time::ParseError>)
    requires
        time_pattern(format@),
        documented_ranges(*t),
        t.tm_year <= i32::MAX - 1900,
    ensures
        r is Ok,
        r matches Ok(s) ==> s@ == time_pattern_text(format@, *t),
{
    let tm = time::Tm {
        tm_sec: t.tm_sec,
        tm_min: t.tm_min,
        tm_hour: t.tm_hour,
        tm_mday: t.tm_mday,
        tm_mon: t.tm_mon,
        tm_year: t.tm_year,
        tm_wday: t.tm_wday,
        tm_yday: t.tm_yday,
        tm_isdst: t.tm_isdst,
        tm_utcoff: t.tm_utcoff,
        tm_nsec: t.tm_nsec,
    };
    time::strftime(format, &tm)
}

/// Whether a text holds no `%`, so that it passes through `strftime` as it
/// is.
pub open spec fn free_of_percent(s: Seq<char>) -> bool {
    forall|i: int| 0 <= i < s.len() ==> s[i] != '%'
}

/// A text without `%` is a time pattern that writes itself.
proof fn lemma_plain_pattern(f: Seq<char>, t: TimeParts)
    requires
        free_of_percent(f),
    ensures
        time_pattern(f),
        time_pattern_text(f, t) == f,
    decreases f.len(),
{
    if f.len() > 0 {
        assert(f[0] != '%');
        assert(free_of_percent(f.skip(1))) by {
            assert forall|i: int| 0 <= i < f.skip(1).len() implies f.skip(1)[i] != '%' by {
                assert(f.skip(1)[i] == f[i + 1]);
            }
        }
        lemma_plain_pattern(f.skip(1), t);
        assert(f =~= seq![f[0]] + f.skip(1));
    }
}

/// Two time patterns, one after the other, form a time pattern that writes
/// the texts of both, one after the other.
proof fn lemma_pattern_concat(a: Seq<char>, b: Seq<char>, t: TimeParts)
    requires
        time_pattern(a),
        time_pattern(b),
    ensures
        time_pattern(a + b),
        time_pattern_text(a + b, t) == time_pattern_text(a, t) + time_pattern_text(b, t),
    decreases a.len(),
{
    if a.len() == 0 {
        assert(a + b =~= b);
        assert(time_pattern_text(a, t) =~= Seq::<char>::empty());
        assert(time_pattern_text(a, t) + time_pattern_text(b, t) =~= time_pattern_text(b, t));
    } else if a[0] == '%' {
        lemma_pattern_concat(a.skip(2), b, t);
        assert((a + b).skip(2) =~= a.skip(2) + b);
        assert((a + b)[0] == a[0]);
        assert((a + b)[1] == a[1]);
        assert(conversion_text(a[1], t) + (time_pattern_text(a.skip(2), t) + time_pattern_text(
            b,
            t,
        )) =~= conversion_text(a[1], t) + time_pattern_text(a.skip(2), t) + time_pattern_text(
            b,
            t,
        ));
    } else {
        lemma_pattern_concat(a.skip(1), b, t);
        assert((a + b).skip(1) =~= a.skip(1) + b);
        assert((a + b)[0] == a[0]);
        assert(seq![a[0]] + (time_pattern_text(a.skip(1), t) + time_pattern_text(b, t)) =~= seq![
            a[0],
        ] + time_pattern_text(a.skip(1), t) + time_pattern_text(b, t));
    }
}

/// The time stamp of a saved file's name: the date (`%F`), `T`, the hour,
/// `-`, the minute, `-`, the second and `Z`.
pub open spec fn timestamp_text(t: TimeParts) -> Seq<char> {
    date_text(t) + seq!['T'] + two_digits(t.tm_hour as int) + seq!['-'] + two_digits(
        t.tm_min as int,
    ) + seq!['-'] + two_digits(t.tm_sec as int) + seq!['Z']
}

/// Unfolds a time pattern that starts with a conversion.
proof fn lemma_pattern_conversion(p: Seq<char>, t: TimeParts)
    requires
        p.len() >= 2,
        p[0] == '%',
    ensures
        time_pattern_text(p, t) == conversion_text(p[1], t) + time_pattern_text(p.skip(2), t),
        time_pattern(p) == (is_time_conversion(p[1]) && time_pattern(p.skip(2))),
{
}

/// Unfolds a time pattern that starts with a plain character.
proof fn lemma_pattern_literal(p: Seq<char>, t: TimeParts)
    requires
        p.len() >= 1,
        p[0] != '%',
    ensures
        time_pattern_text(p, t) == seq![p[0]] + time_pattern_text(p.skip(1), t),
        time_pattern(p) == time_pattern(p.skip(1)),
{
}

/// The time stamp pattern is a time pattern, and writes [`timestamp_text`].
#[verifier::spinoff_prover]
proof fn lemma_timestamp_pattern(t: TimeParts)
    ensures
        time_pattern(timestamp_format()),
        time_pattern_text(timestamp_format(), t) == timestamp_text(t),
{
    reveal_strlit("%FT%H-%M-%SZ");
    let f = timestamp_format();
    let f1 = f.skip(2);
    let f2 = f1.skip(1);
    let f3 = f2.skip(2);
    let f4 = f3.skip(1);
    let f5 = f4.skip(2);
    let f6 = f5.skip(1);
    let f7 = f6.skip(2);
    let f8 = f7.skip(1);
    assert(f.len() == 12 && f[0] == '%' && f[1] == 'F');
    assert(f1.len() == 10 && f1[0] == 'T');
    assert(f2.len() == 9 && f2[0] == '%' && f2[1] == 'H');
    assert(f3.len() == 7 && f3[0] == '-');
    assert(f4.len() == 6 && f4[0] == '%' && f4[1] == 'M');
    assert(f5.len() == 4 && f5[0] == '-');
    assert(f6.len() == 3 && f6[0] == '%' && f6[1] == 'S');
    assert(f7.len() == 1 && f7[0] == 'Z');
    assert(f8.len() == 0);
    lemma_pattern_literal(f7, t);
    lemma_pattern_conversion(f6, t);
    lemma_pattern_literal(f5, t);
    lemma_pattern_conversion(f4, t);
    lemma_pattern_literal(f3, t);
    lemma_pattern_conversion(f2, t);
    lemma_pattern_literal(f1, t);
    lemma_pattern_conversion(f, t);
    let s8 = time_pattern_text(f8, t);
    assert(s8 == Seq::<char>::empty());
    let s = timestamp_text(t);
    assert(time_pattern_text(f, t) =~= s);
}

/// The pattern of a saved file's name, with a tag and an extension free of
/// `%`, is a time pattern, and writes the time stamp, the tag and the
/// extension.
pub proof fn lemma_filename_pattern_text(tag: Seq<char>, extension: Seq<char>, t: TimeParts)
    requires
        free_of_percent(tag),
        free_of_percent(extension),
    ensures
        time_pattern(filename_pattern(tag, extension)),
        time_pattern_text(filename_pattern(tag, extension), t) == timestamp_text(t) + tag
            + extension,
{
    lemma_timestamp_pattern(t);
    lemma_plain_pattern(tag, t);
    lemma_plain_pattern(extension, t);
    lemma_pattern_concat(timestamp_format(), tag, t);
    lemma_pattern_concat(timestamp_format() + tag, extension, t);
}

/// A time stamp in a year from 1000 to 9999 has 20 characters:
/// `YYYY-MM-DDTHH-MM-SSZ`.
pub proof fn lemma_timestamp_length(t: TimeParts)
    requires
        1000 <= t.tm_year + 1900 <= 9999,
    ensures
        timestamp_text(t).len() == 20,
{
    let y: nat = (t.tm_year + 1900) as nat;
    assert(decimal_digits(y / 1000).len() == 1);
    assert(decimal_digits(y / 100).len() == 2);
    assert(decimal_digits(y / 10).len() == 3);
    assert(decimal_digits(y).len() == 4);
}

/// Checks that `s` holds no `%`.
pub fn is_free_of_percent(s: &str) -> (b: bool)
    ensures
        b == free_of_percent(s@),
{
    let v = crate::text::chars_of(s);
    let mut i: usize = 0;
    while i < v.len()
        invariant
            v@ == s@,
            i <= v@.len(),
            forall|k: int| 0 <= k < i ==> v@[k] != '%',
        decreases v@.len() - i,
    {
        if v[i] == '%' {
            return false;
        }
        i += 1;
    }
    true
}


/// Whether `strftime` can format a time without overflowing the year.
pub open spec fn year_formattable(t: TimeParts) -> bool {
    t.tm_year <= i32::MAX - 1900
}

/// The name of a saved image file taken at time `t`: the time stamp
/// `YYYY-MM-DDTHH-MM-SSZ` (see [`timestamp_text`]), then `tag`, then
/// `extension`, as `strftime` writes the pattern [`filename_pattern`].
pub fn image_filename_at(tag: &str, extension: &str, t: &TimeParts) -> (name: String)
    requires
        free_of_percent(tag@),
        free_of_percent(extension@),
        documented_ranges(*t),
        year_formattable(*t),
    ensures
        name@ == timestamp_text(*t) + tag@ + extension@,
{
    let pattern = image_filename_pattern(tag, extension);
    proof {
        lemma_filename_pattern_text(tag@, extension@, *t);
    }
    match format_time(pattern.as_str(), t) {
        Ok(name) => name,
        Err(_) => {
            assert(false);
            String::new()
        },
    }
}

/// The name of a saved image file taken at time `t` (see
/// [`image_filename_at`]), or `None` when the year is too large to format.
pub fn image_filename_for(tag: &str, extension: &str, t: &TimeParts) -> (r: Option<String>)
    requires
        free_of_percent(tag@),
        free_of_percent(extension@),
        documented_ranges(*t),
    ensures
        r is None <==> !year_formattable(*t),
        r matches Some(name) ==> name@ == timestamp_text(*t) + tag@ + extension@,
{
    if t.tm_year > i32::MAX - 1900 {
        None
    } else {
        Some(image_filename_at(tag, extension, t))
    }
}

/// The name of a new saved image file: the current local time, a random tag
/// of [`TAG_LEN`] letters and digits, and `extension` (see
/// [`image_filename_for`]). `None` when the clock reports a year too large to
/// format.
pub fn new_image_filename(extension: &str) -> (r: Option<String>)
    requires
        free_of_percent(extension@),
    ensures
        r matches Some(name) ==> exists|tag: Seq<char>, t: TimeParts|
            {
                &&& tag.len() == TAG_LEN
                &&& forall|i: int| 0 <= i < tag.len() ==> is_ascii_alphanumeric(#[trigger] tag[i])
                &&& documented_ranges(t)
                &&& year_formattable(t)
                &&& name@ == timestamp_text(t) + tag + extension@
            },
{
    let tag = random_alphanumeric(TAG_LEN);
    let t = current_time();
    proof {
        assert forall|i: int| 0 <= i < tag@.len() implies tag@[i] != '%' by {
            assert(is_ascii_alphanumeric(tag@[i]));
        }
    }
    image_filename_for(tag.as_str(), extension, &t)
}

} // verus!
