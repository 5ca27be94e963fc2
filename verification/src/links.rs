//! The link sanitizer: quoted outbound `http(s)` links in a text are found,
//! their targets downloaded once and saved locally, and every link is
//! rewritten to the local URL of its saved copy. The downloads are outside
//! work; the sanitizer is a state machine that says which link to download
//! next and rewrites the text as the downloads come in.
use vstd::prelude::*;
use crate::cache::LinkCache;
use crate::images::{image_url, image_url_of, option_view};
use crate::text::{chars_of, replace_chars, replaced, string_of};

verus! {

/// The pattern of an outbound link: a quoted `http://` or `https://` URL.
/// Group 1 is the URL, group 2 the extension it ends with, if any.
pub const LINK_PATTERN: &'static str = "['\"](https?://.*?(\\.[a-zA-Z0-9]{1,4})?)['\"]";

/// Whether the `regex` crate compiles a pattern.
pub uninterp spec fn regex_compiles(pattern: Seq<char>) -> bool;

/// For each match of a pattern in a text, from left to right, the texts of
/// capture groups 1 and 2 (`None` where a group did not take part).
pub uninterp spec fn capture_groups(pattern: Seq<char>, text: Seq<char>) -> Seq<
    (Option<Seq<char>>, Option<Seq<char>>),
>;

/// A compiled regular expression of the `regex` crate.
#[verifier::external_type_specification]
#[verifier::external_body]
pub struct ExRegex(regex::Regex);

/// The characters of a pair of optional strings.
pub open spec fn groups_view(g: Seq<(Option<String>, Option<String>)>) -> Seq<
    (Option<Seq<char>>, Option<Seq<char>>),
> {
    g.map_values(|p: (Option<String>, Option<String>)| (option_view(p.0), option_view(p.1)))
}

/// The compiled link pattern together with its source text.
pub struct LinkPattern {
    source: String,
    regex: regex::Regex,
}

impl LinkPattern {
    /// The pattern text this was compiled from.
    pub closed spec fn source(&self) -> Seq<char> {
        self.source@
    }

    /// Compiles [`LINK_PATTERN`].
    pub fn new() -> (r: Option<LinkPattern>)
        ensures
            r is Some <==> regex_compiles(LINK_PATTERN@),
            r matches Some(p) ==> p.source() == LINK_PATTERN@,
    {
        compile_link_pattern(LINK_PATTERN)
    }
}

/// Compiles a pattern and keeps it together with its source text.
///
/// Calls `regex::Regex::new`. What is claimed: it succeeds exactly when the
/// pattern compiles ([`regex_compiles`], a function of the pattern alone),
/// and the result holds the regex compiled from `pattern` with `pattern` as
/// its source.
#[verifier::external_body]
fn compile_link_pattern(pattern: &str) -> (r: Option<LinkPattern>)
    ensures
        r is Some <==> regex_compiles(pattern@),
        r matches Some(p) ==> p.source() == pattern@,
{
    match regex::Regex::new(pattern) {
        Ok(regex) => Some(LinkPattern { source: pattern.to_string(), regex }),
        Err(_) => None,
    }
}

/// The texts of groups 1 and 2 of every match of the pattern in `text`.
///
/// Calls `regex::Regex::captures_iter` and `regex::Captures::get`. What is
/// claimed: the result is [`capture_groups`] of the pattern's source and the
/// text.
#[verifier::external_body]
fn link_groups(pattern: &LinkPattern, text: &str) -> (g: Vec<(Option<String>, Option<String>)>)
    ensures
        groups_view(g@) == capture_groups(pattern.source(), text@),
{
    pattern.regex.captures_iter(text).map(
        |c| (c.get(1).map(|m| m.as_str().to_string()), c.get(2).map(|m| m.as_str().to_string())),
    ).collect()
}

/// An outbound link found in a text: the URL and the extension it ends with.
pub struct LinkMatch {
    pub url: String,
    pub extension: Option<String>,
}

impl View for LinkMatch {
    type V = (Seq<char>, Option<Seq<char>>);

    open spec fn view(&self) -> (Seq<char>, Option<Seq<char>>) {
        (self.url@, option_view(self.extension))
    }
}

impl LinkMatch {
    /// A copy of the link.
    pub fn duplicate(&self) -> (m: LinkMatch)
        ensures
            m@ == self@,
    {
        LinkMatch {
            url: self.url.clone(),
            extension: match &self.extension {
                Some(e) => Some(e.clone()),
                None => None,
            },
        }
    }
}

/// The links of a list of matches: the matches where group 1 took part, with
/// group 2 as the extension.
pub open spec fn links_of(groups: Seq<(Option<Seq<char>>, Option<Seq<char>>)>) -> Seq<
    (Seq<char>, Option<Seq<char>>),
>
    decreases groups.len(),
{
    if groups.len() == 0 {
        Seq::empty()
    } else {
        let rest = links_of(groups.drop_last());
        match groups.last().0 {
            Some(u) => rest.push((u, groups.last().1)),
            None => rest,
        }
    }
}

/// The views of a list of links.
pub open spec fn links_view(links: Seq<LinkMatch>) -> Seq<(Seq<char>, Option<Seq<char>>)> {
    links.map_values(|m: LinkMatch| m@)
}

/// The URLs of a list of links.
pub open spec fn urls_of(links: Seq<(Seq<char>, Option<Seq<char>>)>) -> Seq<Seq<char>> {
    links.map_values(|l: (Seq<char>, Option<Seq<char>>)| l.0)
}

/// Turns the groups of the matches into links.
pub fn links_from_groups(groups: Vec<(Option<String>, Option<String>)>) -> (links: Vec<LinkMatch>)
    ensures
        links_view(links@) == links_of(groups_view(groups@)),
{
    let mut links: Vec<LinkMatch> = Vec::new();
    let mut i: usize = 0;
    let ghost g = groups_view(groups@);
    while i < groups.len()
        invariant
            i <= groups@.len(),
            g == groups_view(groups@),
            links_view(links@) == links_of(g.take(i as int)),
        decreases groups@.len() - i,
    {
        let ghost before = links@;
        assert(g.take(i + 1).drop_last() =~= g.take(i as int));
        match &groups[i] {
            (Some(u), e) => {
                let ext = match e {
                    Some(x) => Some(x.clone()),
                    None => None,
                };
                links.push(LinkMatch { url: u.clone(), extension: ext });
                assert(links_view(links@) =~= links_view(before).push(links@.last()@));
            },
            (None, _) => {},
        }
        i += 1;
    }
    assert(g.take(groups@.len() as int) =~= g);
    links
}

/// The outbound links of `text`, in the order they occur.
pub fn find_links(pattern: &LinkPattern, text: &str) -> (links: Vec<LinkMatch>)
    ensures
        links_view(links@) == links_of(capture_groups(pattern.source(), text@)),
{
    let groups = link_groups(pattern, text);
    links_from_groups(groups)
}

/// The text and link table after sanitizing `text` for the links `urls`, in
/// order, starting from the table `cache`; `names` are the file names that
/// the downloads are saved under, taken in order, one for each link not yet
/// in the table. The third part is the names left over.
///
/// A link in the table is replaced by its recorded local URL. A link not in
/// the table is replaced by the local URL of the next file name, and that
/// URL is recorded for it.
pub open spec fn sanitize_run(
    text: Seq<char>,
    cache: Map<Seq<char>, Seq<char>>,
    urls: Seq<Seq<char>>,
    names: Seq<Seq<char>>,
) -> (Seq<char>, Map<Seq<char>, Seq<char>>, Seq<Seq<char>>)
    decreases urls.len(),
{
    if urls.len() == 0 {
        (text, cache, names)
    } else {
        let u = urls[0];
        if cache.contains_key(u) {
            sanitize_run(replaced(text, u, cache[u]), cache, urls.drop_first(), names)
        } else {
            let target = image_url_of(names[0]);
            sanitize_run(
                replaced(text, u, target),
                cache.insert(u, target),
                urls.drop_first(),
                names.drop_first(),
            )
        }
    }
}

/// What the sanitizer asks for next.
pub enum SanitizeStep {
    /// The target of this link is not in the table: it must be downloaded
    /// and saved, and the file name handed to [`LinkSanitizer::resolve`].
    Download(LinkMatch),
    /// Every link is rewritten; this is the sanitized text.
    Finished(String),
}

/// The number of downloads a run for the links `urls` makes, starting from
/// a table whose links are `known`: each link not yet known is downloaded
/// once, and is known from then on.
pub open spec fn download_count(known: Set<Seq<char>>, urls: Seq<Seq<char>>) -> nat
    decreases urls.len(),
{
    if urls.len() == 0 {
        0
    } else if known.contains(urls[0]) {
        download_count(known, urls.drop_first())
    } else {
        1 + download_count(known.insert(urls[0]), urls.drop_first())
    }
}

/// The state of sanitizing one text: the text as rewritten so far, the
/// links found in the text as given, and how many of them are done; and,
/// as ghost state, the history of the steps so far: the text as given, the
/// table the first step saw, the table the last step left, the file names
/// recorded so far, whether a step was made yet, and whether every step saw
/// the table the step before it left.
pub struct LinkSanitizer {
    text: Vec<char>,
    links: Vec<LinkMatch>,
    next: usize,
    given: Ghost<Seq<char>>,
    first_table: Ghost<Map<Seq<char>, Seq<char>>>,
    last_table: Ghost<Map<Seq<char>, Seq<char>>>,
    names: Ghost<Seq<Seq<char>>>,
    started: Ghost<bool>,
    in_order: Ghost<bool>,
}

impl LinkSanitizer {
    #[verifier::type_invariant]
    closed spec fn position_in_range(self) -> bool {
        self.next <= self.links@.len()
    }

    /// The text as rewritten so far.
    pub closed spec fn text(&self) -> Seq<char> {
        self.text@
    }

    /// The links found in the text as given.
    pub closed spec fn links(&self) -> Seq<(Seq<char>, Option<Seq<char>>)> {
        links_view(self.links@)
    }

    /// How many links are done.
    pub closed spec fn position(&self) -> nat {
        self.next as nat
    }

    /// The text as given.
    pub closed spec fn given(&self) -> Seq<char> {
        self.given@
    }

    /// The table that the first step saw.
    pub closed spec fn first_table(&self) -> Map<Seq<char>, Seq<char>> {
        self.first_table@
    }

    /// The table that the last step left.
    pub closed spec fn last_table(&self) -> Map<Seq<char>, Seq<char>> {
        self.last_table@
    }

    /// The file names of the downloads recorded so far, in order.
    pub closed spec fn file_names(&self) -> Seq<Seq<char>> {
        self.names@
    }

    /// Whether a step was made yet.
    pub closed spec fn started(&self) -> bool {
        self.started@
    }

    /// Whether every step saw the table that the step before it left, and
    /// every download was recorded for a link the table did not have.
    pub closed spec fn in_order(&self) -> bool {
        self.in_order@
    }

    /// What the history says of the state: before the first step, nothing
    /// is done; after steps made in order, the text and the table are those
    /// of [`sanitize_run`] from the text as given and the first table, for
    /// the links done so far, with one file name per download.
    pub open spec fn follows_run(&self) -> bool {
        &&& (self.in_order() && !self.started()) ==> {
            &&& self.position() == 0
            &&& self.text() == self.given()
            &&& self.file_names().len() == 0
        }
        &&& (self.in_order() && self.started()) ==> {
            let done = urls_of(self.links()).take(self.position() as int);
            &&& sanitize_run(self.given(), self.first_table(), done, self.file_names()) == (
                self.text(),
                self.last_table(),
                Seq::<Seq<char>>::empty(),
            )
            &&& self.file_names().len() == download_count(self.first_table().dom(), done)
        }
    }

    /// Starts sanitizing `text`, whose links are `links`.
    pub fn from_links(text: &str, links: Vec<LinkMatch>) -> (s: Self)
        ensures
            s.text() == text@,
            s.links() == links_view(links@),
            s.position() == 0,
            s.given() == text@,
            s.file_names() == Seq::<Seq<char>>::empty(),
            !s.started(),
            s.in_order(),
            s.follows_run(),
    {
        LinkSanitizer {
            text: chars_of(text),
            links,
            next: 0,
            given: Ghost(text@),
            first_table: Ghost(Map::empty()),
            last_table: Ghost(Map::empty()),
            names: Ghost(Seq::empty()),
            started: Ghost(false),
            in_order: Ghost(true),
        }
    }

    /// Starts sanitizing `text`: finds its links.
    pub fn start(pattern: &LinkPattern, text: &str) -> (s: Self)
        ensures
            s.text() == text@,
            s.links() == links_of(capture_groups(pattern.source(), text@)),
            s.position() == 0,
            s.given() == text@,
            s.file_names() == Seq::<Seq<char>>::empty(),
            !s.started(),
            s.in_order(),
            s.follows_run(),
    {
        let links = find_links(pattern, text);
        Self::from_links(text, links)
    }

    /// Rewrites the links whose local URL is in `cache`, one after the
    /// other, up to the first link that is not: that one is to be
    /// downloaded. When none is left, the sanitized text is returned.
    pub fn advance(&mut self, cache: &LinkCache) -> (step: SanitizeStep)
        ensures
            final(self).links() == old(self).links(),
            old(self).position() <= final(self).position() <= final(self).links().len(),
            forall|j: int|
                old(self).position() <= j < final(self).position() ==> cache@.contains_key(
                    #[trigger] urls_of(final(self).links())[j],
                ),
            sanitize_run(
                old(self).text(),
                cache@,
                urls_of(final(self).links()).subrange(
                    old(self).position() as int,
                    final(self).position() as int,
                ),
                Seq::empty(),
            ) == (final(self).text(), cache@, Seq::<Seq<char>>::empty()),
            match step {
                SanitizeStep::Download(m) => {
                    &&& final(self).position() < final(self).links().len()
                    &&& m@ == final(self).links()[final(self).position() as int]
                    &&& !cache@.contains_key(m@.0)
                },
                SanitizeStep::Finished(t) => {
                    &&& final(self).position() == final(self).links().len()
                    &&& t@ == final(self).text()
                },
            },
            final(self).given() == old(self).given(),
            final(self).file_names() == old(self).file_names(),
            final(self).started(),
            final(self).first_table() == (if old(self).started() {
                old(self).first_table()
            } else {
                cache@
            }),
            final(self).last_table() == cache@,
            final(self).in_order() == (old(self).in_order() && (!old(self).started() || cache@
                == old(self).last_table())),
            old(self).follows_run() ==> final(self).follows_run(),
            (step is Finished && old(self).follows_run() && final(self).in_order()) ==> ({
                let urls = urls_of(final(self).links());
                &&& sanitize_run(
                    final(self).given(),
                    final(self).first_table(),
                    urls,
                    final(self).file_names(),
                ) == (final(self).text(), cache@, Seq::<Seq<char>>::empty())
                &&& final(self).file_names().len() == download_count(
                    final(self).first_table().dom(),
                    urls,
                )
            }),
    {
        proof {
            use_type_invariant(&*self);
        }
        let ghost start_text = self.text@;
        let ghost start = self.next as int;
        let ghost urls = urls_of(links_view(self.links@));
        let ghost given = self.given@;
        let ghost names = self.names@;
        let ghost ft = if self.started@ {
            self.first_table@
        } else {
            cache@
        };
        let ghost ok = self.in_order@ && (!self.started@ || cache@ == self.last_table@) && (
        self.in_order@ && self.started@ ==> ({
            let done = urls.take(self.next as int);
            &&& sanitize_run(given, self.first_table@, done, names) == (
                self.text@,
                self.last_table@,
                Seq::<Seq<char>>::empty(),
            )
            &&& names.len() == download_count(self.first_table@.dom(), done)
        })) && (self.in_order@ && !self.started@ ==> (self.next == 0 && self.text@ == given
            && names.len() == 0));
        proof {
            assert(links_view(self.links@).len() == self.links@.len());
            assert(urls.subrange(start, start) =~= Seq::<Seq<char>>::empty());
            if ok && !self.started@ {
                assert(urls.take(0) =~= Seq::<Seq<char>>::empty());
                assert(names =~= Seq::<Seq<char>>::empty());
            }
        }
        let n: usize = self.links.len();
        let mut next = self.next;
        let mut text: Vec<char> = Vec::new();
        std::mem::swap(&mut text, &mut self.text);
        let mut found = false;
        while !found && next < n
            invariant
                n == self.links@.len(),
                0 <= start <= next <= n,
                urls == urls_of(links_view(self.links@)),
                urls.len() == n,
                found ==> next < n && !cache@.contains_key(urls[next as int]),
                forall|j: int| start <= j < next ==> cache@.contains_key(#[trigger] urls[j]),
                sanitize_run(start_text, cache@, urls.subrange(start, next as int), Seq::empty())
                    == (text@, cache@, Seq::<Seq<char>>::empty()),
                ok ==> sanitize_run(given, ft, urls.take(next as int), names) == (
                    text@,
                    cache@,
                    Seq::<Seq<char>>::empty(),
                ),
                ok ==> names.len() == download_count(ft.dom(), urls.take(next as int)),
            decreases n - next + (if found { 0int } else { 1int }),
        {
            let i: usize = next;
            match cache.get(&self.links[i].url) {
                Some(target) => {
                    let url_chars = chars_of(self.links[i].url.as_str());
                    let target_chars = chars_of(target.as_str());
                    let new_text = replace_chars(&text, &url_chars, &target_chars);
                    proof {
                        let u = urls[i as int];
                        assert(u == self.links@[i as int].url@);
                        let seg = urls.subrange(start, i as int);
                        assert forall|j: int| 0 <= j < seg.len() implies cache@.contains_key(
                            #[trigger] seg[j],
                        ) by {
                            assert(seg[j] == urls[start + j]);
                        }
                        lemma_run_snoc_hit(start_text, cache@, seg, u);
                        assert(urls.subrange(start, i as int + 1) =~= seg.push(u));
                        if ok {
                            let prefix = urls.take(i as int);
                            let one = seq![u];
                            assert(urls.take(i as int + 1) =~= prefix + one);
                            lemma_sanitize_run_concat(given, ft, prefix, one, names);
                            lemma_download_count_concat(given, ft, prefix, one, names);
                            lemma_one_hit(text@, cache@, u);
                        }
                    }
                    text = new_text;
                    next = i + 1;
                },
                None => {
                    assert(urls[i as int] == self.links@[i as int].url@);
                    found = true;
                },
            }
        }
        self.text = text;
        self.next = next;
        let ghost new_in_order = self.in_order@ && (!self.started@ || cache@ == self.last_table@);
        let ghost seen = cache@;
        self.first_table = Ghost(ft);
        self.last_table = Ghost(seen);
        self.in_order = Ghost(new_in_order);
        self.started = Ghost(true);
        if found {
            assert(urls[next as int] == self.links@[next as int].url@);
            SanitizeStep::Download(self.links[next].duplicate())
        } else {
            assert(urls.take(next as int) =~= urls);
            SanitizeStep::Finished(string_of(&self.text))
        }
    }

    /// Records the download of the pending link, saved under `filename`:
    /// the link is rewritten to the file's local URL, and that URL is
    /// recorded for it in `cache`, replacing what another sanitizer may have
    /// recorded for it in the meantime. When the link is still absent from
    /// `cache`, this is one step of [`sanitize_run`].
    pub fn resolve(&mut self, cache: &mut LinkCache, filename: &str)
        requires
            old(self).position() < old(self).links().len(),
        ensures
            final(self).links() == old(self).links(),
            final(self).position() == old(self).position() + 1,
            final(self).text() == replaced(
                old(self).text(),
                urls_of(old(self).links())[old(self).position() as int],
                image_url_of(filename@),
            ),
            final(cache)@ == old(cache)@.insert(
                urls_of(old(self).links())[old(self).position() as int],
                image_url_of(filename@),
            ),
            !old(cache)@.contains_key(urls_of(old(self).links())[old(self).position() as int])
                ==> sanitize_run(
                old(self).text(),
                old(cache)@,
                seq![urls_of(old(self).links())[old(self).position() as int]],
                seq![filename@],
            ) == (final(self).text(), final(cache)@, Seq::<Seq<char>>::empty()),
            final(self).given() == old(self).given(),
            final(self).file_names() == old(self).file_names().push(filename@),
            final(self).started() == old(self).started(),
            final(self).first_table() == old(self).first_table(),
            final(self).last_table() == final(cache)@,
            final(self).in_order() == (old(self).in_order() && old(self).started() && old(cache)@
                == old(self).last_table() && !old(cache)@.contains_key(
                urls_of(old(self).links())[old(self).position() as int],
            )),
            old(self).follows_run() ==> final(self).follows_run(),
    {
        proof {
            use_type_invariant(&*self);
            assert(links_view(self.links@).len() == self.links@.len());
        }
        let i: usize = self.next;
        assert(i < self.links.len());
        let ghost u = urls_of(links_view(self.links@))[i as int];
        let ghost cache0 = cache@;
        let ghost text0 = self.text@;
        let ghost names0 = self.names@;
        let ghost ok = self.in_order@ && self.started@ && cache0 == self.last_table@
            && !cache0.contains_key(u);
        assert(u == self.links@[i as int].url@);
        let target = image_url(filename);
        let url_chars = chars_of(self.links[i].url.as_str());
        let target_chars = chars_of(target.as_str());
        let new_text = replace_chars(&self.text, &url_chars, &target_chars);
        cache.insert(self.links[i].url.clone(), target);
        proof {
            let one = seq![u];
            let fnames = seq![filename@];
            assert(one[0] == u);
            assert(fnames[0] == filename@);
            assert(one.drop_first() =~= Seq::<Seq<char>>::empty());
            assert(fnames.drop_first() =~= Seq::<Seq<char>>::empty());
            if !cache0.contains_key(u) {
                assert(sanitize_run(text0, cache0, one, fnames) == sanitize_run(
                    new_text@,
                    cache@,
                    one.drop_first(),
                    fnames.drop_first(),
                ));
            }
            if ok && self.follows_run() {
                let urls = urls_of(links_view(self.links@));
                let prefix = urls.take(i as int);
                assert(urls.take(i as int + 1) =~= prefix + one);
                lemma_run_extra_names(self.given@, self.first_table@, prefix, names0, fnames);
                assert(Seq::<Seq<char>>::empty() + fnames =~= fnames);
                assert(names0.push(filename@) =~= names0 + fnames);
                lemma_sanitize_run_concat(self.given@, self.first_table@, prefix, one, names0 + fnames);
                lemma_download_count_concat(self.given@, self.first_table@, prefix, one, names0 + fnames);
                lemma_download_count_extra_names(self.given@, self.first_table@, prefix, names0, fnames);
                assert(!cache0.dom().contains(u));
                assert(download_count(cache0.dom().insert(u), one.drop_first()) == 0);
                assert(download_count(cache0.dom(), one) == 1);
            }
        }
        self.text = new_text;
        self.next = i + 1;
        let ghost left = cache@;
        let ghost new_names = names0.push(filename@);
        self.last_table = Ghost(left);
        self.names = Ghost(new_names);
        self.in_order = Ghost(ok);
    }
}

/// One link that is in the table: the run replaces it by its recorded URL.
proof fn lemma_one_hit(text: Seq<char>, cache: Map<Seq<char>, Seq<char>>, u: Seq<char>)
    requires
        cache.contains_key(u),
    ensures
        sanitize_run(text, cache, seq![u], Seq::empty()) == (
            replaced(text, u, cache[u]),
            cache,
            Seq::<Seq<char>>::empty(),
        ),
        download_count(cache.dom(), seq![u]) == 0,
{
    let one = seq![u];
    let none = Seq::<Seq<char>>::empty();
    assert(one[0] == u);
    assert(one.drop_first() =~= none);
    let t1 = replaced(text, u, cache[u]);
    assert(sanitize_run(t1, cache, none, none) == (t1, cache, none));
    assert(sanitize_run(text, cache, one, none) == sanitize_run(t1, cache, one.drop_first(), none));
    assert(download_count(cache.dom(), none) == 0);
    assert(download_count(cache.dom(), one) == download_count(cache.dom(), one.drop_first()));
}

/// The downloads of a run for `u1` followed by `u2` are those for `u1` and
/// then those for `u2` from the table the first part left.
proof fn lemma_download_count_concat(
    text: Seq<char>,
    cache: Map<Seq<char>, Seq<char>>,
    u1: Seq<Seq<char>>,
    u2: Seq<Seq<char>>,
    names: Seq<Seq<char>>,
)
    ensures
        download_count(cache.dom(), u1 + u2) == download_count(cache.dom(), u1) + download_count(
            sanitize_run(text, cache, u1, names).1.dom(),
            u2,
        ),
    decreases u1.len(),
{
    if u1.len() == 0 {
        assert(u1 + u2 =~= u2);
    } else {
        assert((u1 + u2).drop_first() =~= u1.drop_first() + u2);
        assert((u1 + u2)[0] == u1[0]);
        let u = u1[0];
        if cache.contains_key(u) {
            lemma_download_count_concat(
                replaced(text, u, cache[u]),
                cache,
                u1.drop_first(),
                u2,
                names,
            );
        } else {
            let target = image_url_of(names[0]);
            let c1 = cache.insert(u, target);
            assert(c1.dom() =~= cache.dom().insert(u));
            lemma_download_count_concat(
                replaced(text, u, target),
                c1,
                u1.drop_first(),
                u2,
                names.drop_first(),
            );
        }
    }
}

/// File names beyond those a run needs are left over, untouched.
proof fn lemma_run_extra_names(
    text: Seq<char>,
    cache: Map<Seq<char>, Seq<char>>,
    urls: Seq<Seq<char>>,
    names: Seq<Seq<char>>,
    extra: Seq<Seq<char>>,
)
    requires
        names.len() >= download_count(cache.dom(), urls),
    ensures
        sanitize_run(text, cache, urls, names + extra) == (
            sanitize_run(text, cache, urls, names).0,
            sanitize_run(text, cache, urls, names).1,
            sanitize_run(text, cache, urls, names).2 + extra,
        ),
    decreases urls.len(),
{
    if urls.len() > 0 {
        let u = urls[0];
        if cache.contains_key(u) {
            lemma_run_extra_names(replaced(text, u, cache[u]), cache, urls.drop_first(), names, extra);
        } else {
            let target = image_url_of(names[0]);
            let c1 = cache.insert(u, target);
            assert(c1.dom() =~= cache.dom().insert(u));
            assert((names + extra)[0] == names[0]);
            assert((names + extra).drop_first() =~= names.drop_first() + extra);
            lemma_run_extra_names(replaced(text, u, target), c1, urls.drop_first(), names.drop_first(), extra);
        }
    }
}

/// The downloads of a run do not depend on the file names.
proof fn lemma_download_count_extra_names(
    text: Seq<char>,
    cache: Map<Seq<char>, Seq<char>>,
    urls: Seq<Seq<char>>,
    names: Seq<Seq<char>>,
    extra: Seq<Seq<char>>,
)
    requires
        names.len() >= download_count(cache.dom(), urls),
    ensures
        sanitize_run(text, cache, urls, names + extra).1 == sanitize_run(text, cache, urls, names).1,
{
    lemma_run_extra_names(text, cache, urls, names, extra);
}

/// One more link that is in the table extends a run by one replacement.
proof fn lemma_run_snoc_hit(
    text: Seq<char>,
    cache: Map<Seq<char>, Seq<char>>,
    urls: Seq<Seq<char>>,
    u: Seq<char>,
)
    requires
        cache.contains_key(u),
        forall|j: int| 0 <= j < urls.len() ==> cache.contains_key(#[trigger] urls[j]),
    ensures
        sanitize_run(text, cache, urls.push(u), Seq::empty()) == (
            replaced(sanitize_run(text, cache, urls, Seq::empty()).0, u, cache[u]),
            cache,
            Seq::<Seq<char>>::empty(),
        ),
        sanitize_run(text, cache, urls, Seq::empty()).1 == cache,
        sanitize_run(text, cache, urls, Seq::empty()).2 == Seq::<Seq<char>>::empty(),
    decreases urls.len(),
{
    if urls.len() == 0 {
        let one = urls.push(u);
        assert(one.len() == 1);
        assert(one[0] == u);
        assert(one.drop_first() =~= Seq::<Seq<char>>::empty());
        assert(one.drop_first() =~= urls);
        let t1 = replaced(text, u, cache[u]);
        assert(sanitize_run(t1, cache, urls, Seq::empty()) == (t1, cache, Seq::<Seq<char>>::empty()));
        assert(sanitize_run(text, cache, one, Seq::empty()) == sanitize_run(t1, cache, one.drop_first(), Seq::empty()));
    } else {
        assert(cache.contains_key(urls[0]));
        let t1 = replaced(text, urls[0], cache[urls[0]]);
        assert forall|j: int|
            0 <= j < urls.drop_first().len() implies cache.contains_key(
            #[trigger] urls.drop_first()[j],
        ) by {
            assert(urls.drop_first()[j] == urls[j + 1]);
        }
        lemma_run_snoc_hit(t1, cache, urls.drop_first(), u);
        assert(urls.push(u).drop_first() =~= urls.drop_first().push(u));
        assert(urls.push(u)[0] == urls[0]);
    }
}

/// Sanitizing for `u1` and then for `u2` is sanitizing for `u1` followed by
/// `u2`: the steps of the sanitizer compose.
pub proof fn lemma_sanitize_run_concat(
    text: Seq<char>,
    cache: Map<Seq<char>, Seq<char>>,
    u1: Seq<Seq<char>>,
    u2: Seq<Seq<char>>,
    names: Seq<Seq<char>>,
)
    ensures
        sanitize_run(text, cache, u1 + u2, names) == ({
            let first = sanitize_run(text, cache, u1, names);
            sanitize_run(first.0, first.1, u2, first.2)
        }),
    decreases u1.len(),
{
    if u1.len() == 0 {
        assert(u1 + u2 =~= u2);
    } else {
        assert((u1 + u2).drop_first() =~= u1.drop_first() + u2);
        assert((u1 + u2)[0] == u1[0]);
        let u = u1[0];
        if cache.contains_key(u) {
            lemma_sanitize_run_concat(
                replaced(text, u, cache[u]),
                cache,
                u1.drop_first(),
                u2,
                names,
            );
        } else {
            let target = image_url_of(names[0]);
            lemma_sanitize_run_concat(
                replaced(text, u, target),
                cache.insert(u, target),
                u1.drop_first(),
                u2,
                names.drop_first(),
            );
        }
    }
}

/// The table after a run keeps every link it had, with the same local URL,
/// and has every link of the run.
pub proof fn lemma_sanitize_run_records(
    text: Seq<char>,
    cache: Map<Seq<char>, Seq<char>>,
    urls: Seq<Seq<char>>,
    names: Seq<Seq<char>>,
)
    ensures
        forall|k: Seq<char>| #[trigger]
            cache.contains_key(k) ==> sanitize_run(text, cache, urls, names).1.contains_key(k)
                && sanitize_run(text, cache, urls, names).1[k] == cache[k],
        forall|j: int|
            0 <= j < urls.len() ==> sanitize_run(text, cache, urls, names).1.contains_key(
                #[trigger] urls[j],
            ),
    decreases urls.len(),
{
    if urls.len() > 0 {
        let u = urls[0];
        let rest = urls.drop_first();
        if cache.contains_key(u) {
            let t1 = replaced(text, u, cache[u]);
            lemma_sanitize_run_records(t1, cache, rest, names);
            assert forall|j: int| 0 <= j < urls.len() implies sanitize_run(
                text,
                cache,
                urls,
                names,
            ).1.contains_key(#[trigger] urls[j]) by {
                if j > 0 {
                    assert(urls[j] == rest[j - 1]);
                }
            }
        } else {
            let target = image_url_of(names[0]);
            let t1 = replaced(text, u, target);
            let c1 = cache.insert(u, target);
            lemma_sanitize_run_records(t1, c1, rest, names.drop_first());
            assert forall|k: Seq<char>| #[trigger] cache.contains_key(k) implies sanitize_run(
                text,
                cache,
                urls,
                names,
            ).1.contains_key(k) && sanitize_run(text, cache, urls, names).1[k] == cache[k] by {
                assert(c1.contains_key(k));
            }
            assert forall|j: int| 0 <= j < urls.len() implies sanitize_run(
                text,
                cache,
                urls,
                names,
            ).1.contains_key(#[trigger] urls[j]) by {
                if j > 0 {
                    assert(urls[j] == rest[j - 1]);
                } else {
                    assert(c1.contains_key(u));
                }
            }
        }
    }
}

proof fn lemma_rerun_with_final_table(
    text: Seq<char>,
    cache: Map<Seq<char>, Seq<char>>,
    table: Map<Seq<char>, Seq<char>>,
    urls: Seq<Seq<char>>,
    names: Seq<Seq<char>>,
)
    requires
        table == sanitize_run(text, cache, urls, names).1,
    ensures
        sanitize_run(text, table, urls, Seq::empty()) == (
            sanitize_run(text, cache, urls, names).0,
            table,
            Seq::<Seq<char>>::empty(),
        ),
    decreases urls.len(),
{
    if urls.len() > 0 {
        let u = urls[0];
        let rest = urls.drop_first();
        if cache.contains_key(u) {
            let t1 = replaced(text, u, cache[u]);
            lemma_sanitize_run_records(t1, cache, rest, names);
            assert(table.contains_key(u) && table[u] == cache[u]);
            lemma_rerun_with_final_table(t1, cache, table, rest, names);
        } else {
            let target = image_url_of(names[0]);
            let t1 = replaced(text, u, target);
            let c1 = cache.insert(u, target);
            lemma_sanitize_run_records(t1, c1, rest, names.drop_first());
            assert(c1.contains_key(u));
            assert(table.contains_key(u) && table[u] == target);
            lemma_rerun_with_final_table(t1, c1, table, rest, names.drop_first());
        }
    }
}

/// Sanitizing a text a second time, with the table that the first time
/// left, downloads nothing and gives the same text, leaving the table as it
/// was.
pub proof fn lemma_sanitize_again_is_stable(
    text: Seq<char>,
    cache: Map<Seq<char>, Seq<char>>,
    urls: Seq<Seq<char>>,
    names: Seq<Seq<char>>,
)
    ensures
        ({
            let first = sanitize_run(text, cache, urls, names);
            &&& forall|j: int| 0 <= j < urls.len() ==> first.1.contains_key(#[trigger] urls[j])
            &&& sanitize_run(text, first.1, urls, Seq::empty()) == (
                first.0,
                first.1,
                Seq::<Seq<char>>::empty(),
            )
        }),
{
    lemma_sanitize_run_records(text, cache, urls, names);
    lemma_rerun_with_final_table(text, cache, sanitize_run(text, cache, urls, names).1, urls, names);
}

/// Every link that a run adds to the table is recorded with the local URL
/// of one of the run's file names (given a file name for every download).
pub proof fn lemma_sanitize_run_targets(
    text: Seq<char>,
    cache: Map<Seq<char>, Seq<char>>,
    urls: Seq<Seq<char>>,
    names: Seq<Seq<char>>,
)
    requires
        names.len() >= download_count(cache.dom(), urls),
    ensures
        forall|k: Seq<char>|
            #![trigger sanitize_run(text, cache, urls, names).1[k]]
            #![trigger sanitize_run(text, cache, urls, names).1.contains_key(k)]
            sanitize_run(text, cache, urls, names).1.contains_key(k) && !cache.contains_key(k)
                ==> exists|j: int|
                0 <= j < names.len() && sanitize_run(text, cache, urls, names).1[k]
                    == image_url_of(#[trigger] names[j]),
    decreases urls.len(),
{
    if urls.len() == 0 {
        assert(sanitize_run(text, cache, urls, names).1 == cache);
    } else {
        let u = urls[0];
        let rest = urls.drop_first();
        let last = sanitize_run(text, cache, urls, names).1;
        if cache.contains_key(u) {
            let t1 = replaced(text, u, cache[u]);
            lemma_sanitize_run_targets(t1, cache, rest, names);
            let final1 = sanitize_run(t1, cache, rest, names).1;
            assert(last == final1);
            assert forall|k: Seq<char>|
                #![trigger last[k]]
                #![trigger last.contains_key(k)]
                last.contains_key(k) && !cache.contains_key(k) implies exists|j: int|
                0 <= j < names.len() && last[k] == image_url_of(#[trigger] names[j]) by {
                assert(final1[k] == last[k]);
            }
        } else {
            let target = image_url_of(names[0]);
            let t1 = replaced(text, u, target);
            let c1 = cache.insert(u, target);
            let names1 = names.drop_first();
            assert(c1.dom() =~= cache.dom().insert(u));
            lemma_sanitize_run_targets(t1, c1, rest, names1);
            lemma_sanitize_run_records(t1, c1, rest, names1);
            let final1 = sanitize_run(t1, c1, rest, names1).1;
            assert(last == final1);
            assert forall|k: Seq<char>|
                #![trigger last[k]]
                #![trigger last.contains_key(k)]
                last.contains_key(k) && !cache.contains_key(k) implies exists|j: int|
                0 <= j < names.len() && last[k] == image_url_of(#[trigger] names[j]) by {
                assert(final1[k] == last[k]);
                if k == u {
                    assert(c1.contains_key(u));
                    assert(last[k] == image_url_of(names[0]));
                } else {
                    assert(!c1.contains_key(k));
                    let j1 = choose|j1: int|
                        0 <= j1 < names1.len() && last[k] == image_url_of(#[trigger] names1[j1]);
                    assert(names1[j1] == names[j1 + 1]);
                }
            }
        }
    }
}

/// Whether each of a series of sanitizer runs, one after the other, has a
/// file name for every download it makes.
pub open spec fn runs_named(
    cache: Map<Seq<char>, Seq<char>>,
    runs: Seq<(Seq<char>, Seq<Seq<char>>, Seq<Seq<char>>)>,
) -> bool
    decreases runs.len(),
{
    runs.len() == 0 || (runs[0].2.len() >= download_count(cache.dom(), runs[0].1) && runs_named(
        sanitize_run(runs[0].0, cache, runs[0].1, runs[0].2).1,
        runs.drop_first(),
    ))
}

/// The link table after a series of sanitizer runs, one after the other:
/// each run is the text, its links and the file names its downloads were
/// saved under.
pub open spec fn table_after_runs(
    cache: Map<Seq<char>, Seq<char>>,
    runs: Seq<(Seq<char>, Seq<Seq<char>>, Seq<Seq<char>>)>,
) -> Map<Seq<char>, Seq<char>>
    decreases runs.len(),
{
    if runs.len() == 0 {
        cache
    } else {
        table_after_runs(
            sanitize_run(runs[0].0, cache, runs[0].1, runs[0].2).1,
            runs.drop_first(),
        )
    }
}

/// Across a series of sanitizer runs, each with a file name for every
/// download it makes, the link table only grows: a recorded
/// link is never removed or changed, every link of every run ends up
/// recorded, and every link that was added is recorded with the local URL of
/// a file name of one of the runs.
pub proof fn lemma_link_table_only_grows(
    cache: Map<Seq<char>, Seq<char>>,
    runs: Seq<(Seq<char>, Seq<Seq<char>>, Seq<Seq<char>>)>,
)
    requires
        runs_named(cache, runs),
    ensures
        forall|k: Seq<char>|
            #![trigger table_after_runs(cache, runs)[k]]
            #![trigger table_after_runs(cache, runs).contains_key(k)]
            cache.contains_key(k) ==> table_after_runs(cache, runs).contains_key(k)
                && table_after_runs(cache, runs)[k] == cache[k],
        forall|i: int, j: int|
            0 <= i < runs.len() && 0 <= j < runs[i].1.len() ==> table_after_runs(
                cache,
                runs,
            ).contains_key(#[trigger] runs[i].1[j]),
        forall|k: Seq<char>|
            #![trigger table_after_runs(cache, runs)[k]]
            #![trigger table_after_runs(cache, runs).contains_key(k)]
            table_after_runs(cache, runs).contains_key(k) && !cache.contains_key(k)
                ==> exists|i: int, j: int|
                0 <= i < runs.len() && 0 <= j < runs[i].2.len() && table_after_runs(cache, runs)[k]
                    == image_url_of(#[trigger] runs[i].2[j]),
    decreases runs.len(),
{
    if runs.len() == 0 {
        assert(table_after_runs(cache, runs) == cache);
    } else {
        let r = runs[0];
        let rest = runs.drop_first();
        let c1 = sanitize_run(r.0, cache, r.1, r.2).1;
        let last = table_after_runs(cache, runs);
        lemma_sanitize_run_records(r.0, cache, r.1, r.2);
        lemma_sanitize_run_targets(r.0, cache, r.1, r.2);
        lemma_link_table_only_grows(c1, rest);
        let final1 = table_after_runs(c1, rest);
        assert(last == final1);
        assert forall|k: Seq<char>|
            #![trigger last[k]]
            #![trigger last.contains_key(k)]
            cache.contains_key(k) implies last.contains_key(k) && last[k] == cache[k] by {
            assert(c1.contains_key(k) && c1[k] == cache[k]);
            assert(final1[k] == last[k]);
        }
        assert forall|i: int, j: int|
            0 <= i < runs.len() && 0 <= j < runs[i].1.len() implies last.contains_key(
            #[trigger] runs[i].1[j],
        ) by {
            if i == 0 {
                assert(c1.contains_key(r.1[j]));
                assert(final1[r.1[j]] == last[r.1[j]]);
            } else {
                assert(runs[i] == rest[i - 1]);
                assert(last.contains_key(rest[i - 1].1[j]));
            }
        }
        assert forall|k: Seq<char>|
            #![trigger last[k]]
            #![trigger last.contains_key(k)]
            last.contains_key(k) && !cache.contains_key(k) implies exists|i: int, j: int|
            0 <= i < runs.len() && 0 <= j < runs[i].2.len() && last[k] == image_url_of(
                #[trigger] runs[i].2[j],
            ) by {
            assert(final1[k] == last[k]);
            if c1.contains_key(k) {
                assert(last[k] == c1[k]);
                let j = choose|j: int| 0 <= j < r.2.len() && c1[k] == image_url_of(#[trigger] r.2[j]);
                assert(runs[0].2[j] == r.2[j]);
            } else {
                let (i1, j) = choose|i1: int, j: int|
                    0 <= i1 < rest.len() && 0 <= j < rest[i1].2.len() && last[k] == image_url_of(
                        #[trigger] rest[i1].2[j],
                    );
                assert(rest[i1] == runs[i1 + 1]);
            }
        }
    }
}

/// A text without links comes out as it went in, and the table is left as
/// it was.
pub proof fn lemma_no_links_no_change(
    text: Seq<char>,
    cache: Map<Seq<char>, Seq<char>>,
    names: Seq<Seq<char>>,
)
    ensures
        sanitize_run(text, cache, Seq::empty(), names) == (text, cache, names),
{
}

} // verus!
