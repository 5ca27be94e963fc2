//! Character-level text operations: converting between strings and
//! character vectors, and replacing every occurrence of a pattern.
use vstd::prelude::*;

verus! {

/// The text that `str::replace` produces: scanning from the left, each
/// occurrence of `from` that does not overlap an earlier one is replaced by
/// `to`. An empty `from` matches before every character and at the end.
pub open spec fn replaced(s: Seq<char>, from: Seq<char>, to: Seq<char>) -> Seq<char>
    decreases s.len(),
{
    if from.len() == 0 {
        if s.len() == 0 {
            to
        } else {
            to + seq![s[0]] + replaced(s.skip(1), from, to)
        }
    } else if s.len() < from.len() {
        s
    } else if s.take(from.len() as int) == from {
        to + replaced(s.skip(from.len() as int), from, to)
    } else {
        seq![s[0]] + replaced(s.skip(1), from, to)
    }
}

/// Whether `pat` occurs in `s` starting at index `i`.
pub open spec fn occurs_at(s: Seq<char>, pat: Seq<char>, i: int) -> bool {
    0 <= i && i + pat.len() <= s.len() && s.subrange(i, i + pat.len()) == pat
}

/// Whether `from` appears nowhere in `s`, character for character.
pub open spec fn nowhere_in(s: Seq<char>, from: Seq<char>) -> bool {
    forall|i: int| 0 <= i && i + from.len() <= s.len() ==> #[trigger] s.subrange(i, i + from.len()) != from
}

/// Replacing a non-empty pattern that appears nowhere in a text, character
/// for character, leaves the text as it is; and a text that starts with the
/// pattern, character for character, starts with the replacement.
pub proof fn lemma_replace_exact(s: Seq<char>, from: Seq<char>, to: Seq<char>)
    requires
        from.len() > 0,
    ensures
        nowhere_in(s, from) ==> replaced(s, from, to) == s,
        s.len() >= from.len() && s.subrange(0, from.len() as int) == from ==> replaced(s, from, to)
            == to + replaced(s.skip(from.len() as int), from, to),
    decreases s.len(),
{
    if s.len() >= from.len() {
        assert(s.take(from.len() as int) =~= s.subrange(0, from.len() as int));
    }
    if nowhere_in(s, from) && s.len() >= from.len() {
        let rest = s.skip(1);
        let z: int = 0;
        assert(s.subrange(z, z + from.len()) != from);
        assert(s.subrange(z, z + from.len()) =~= s.take(from.len() as int));
        assert forall|i: int| 0 <= i && i + from.len() <= rest.len() implies #[trigger] rest.subrange(
            i,
            i + from.len(),
        ) != from by {
            assert(rest.subrange(i, i + from.len()) =~= s.subrange(i + 1, i + 1 + from.len()));
        }
        lemma_replace_exact(rest, from, to);
        assert(seq![s[0]] + rest =~= s);
    }
}

/// The characters of `s`, in order.
pub fn chars_of(s: &str) -> (v: Vec<char>)
    ensures
        v@ == s@,
{
    broadcast use vstd::string::group_string_axioms;
    let mut v: Vec<char> = Vec::new();
    for c in iter: s.chars()
        invariant
            v@ == iter.seq().take(iter.index()),
    {
        v.push(c);
    }
    v
}

/// The string made of the characters of `v`, in order.
#[verifier::external_body]
pub(crate) fn string_of(v: &Vec<char>) -> (s: String)
    ensures
        s@ == v@,
{
    String::from_iter(v.iter())
}

/// Whether `pat` occurs in `s` at index `i` (computed).
fn matches_at(s: &Vec<char>, pat: &Vec<char>, i: usize) -> (b: bool)
    requires
        i <= s.len(),
    ensures
        b == occurs_at(s@, pat@, i as int),
{
    if pat.len() > s.len() - i {
        return false;
    }
    let mut j: usize = 0;
    while j < pat.len()
        invariant
            i + pat.len() <= s.len(),
            j <= pat.len(),
            forall|k: int| 0 <= k < j ==> s@[i + k] == pat@[k],
        decreases pat.len() - j,
    {
        if s[i + j] != pat[j] {
            assert(s@.subrange(i as int, i + pat.len())[j as int] != pat@[j as int]);
            return false;
        }
        j += 1;
    }
    assert(s@.subrange(i as int, i + pat.len()) =~= pat@);
    true
}

/// Replaces every occurrence of `from` in `s` by `to`, as `str::replace`
/// does.
pub fn replace_chars(s: &Vec<char>, from: &Vec<char>, to: &Vec<char>) -> (r: Vec<char>)
    ensures
        r@ == replaced(s@, from@, to@),
        from@.len() > 0 && nowhere_in(s@, from@) ==> r@ == s@,
{
    proof {
        if from@.len() > 0 {
            lemma_replace_exact(s@, from@, to@);
        }
    }
    let mut out: Vec<char> = Vec::new();
    let mut i: usize = 0;
    assert(s@.skip(0) =~= s@);
    while i < s.len()
        invariant
            i <= s.len(),
            replaced(s@, from@, to@) == out@ + replaced(s@.skip(i as int), from@, to@),
        decreases s.len() - i,
    {
        let ghost rest = s@.skip(i as int);
        if from.len() == 0 {
            let mut k: usize = 0;
            let ghost before = out@;
            while k < to.len()
                invariant
                    k <= to.len(),
                    out@ == before + to@.take(k as int),
                decreases to.len() - k,
            {
                out.push(to[k]);
                k += 1;
                assert(to@.take(k as int) =~= to@.take(k - 1) + seq![to@[k - 1]]);
            }
            assert(to@.take(to.len() as int) =~= to@);
            out.push(s[i]);
            assert(rest.skip(1) =~= s@.skip(i + 1));
            assert(rest[0] == s@[i as int]);
            i += 1;
        } else if matches_at(s, from, i) {
            let mut k: usize = 0;
            let ghost before = out@;
            while k < to.len()
                invariant
                    k <= to.len(),
                    out@ == before + to@.take(k as int),
                decreases to.len() - k,
            {
                out.push(to[k]);
                k += 1;
                assert(to@.take(k as int) =~= to@.take(k - 1) + seq![to@[k - 1]]);
            }
            assert(to@.take(to.len() as int) =~= to@);
            assert(rest.take(from.len() as int) =~= s@.subrange(i as int, i + from.len()));
            assert(rest.skip(from.len() as int) =~= s@.skip(i + from.len()));
            i += from.len();
        } else {
            out.push(s[i]);
            assert(rest.skip(1) =~= s@.skip(i + 1));
            assert(rest[0] == s@[i as int]);
            proof {
                if rest.len() >= from@.len() {
                    assert(rest.take(from.len() as int) =~= s@.subrange(i as int, i + from.len()));
                }
            }
            i += 1;
        }
    }
    if from.len() == 0 {
        let mut k: usize = 0;
        let ghost before = out@;
        while k < to.len()
            invariant
                k <= to.len(),
                out@ == before + to@.take(k as int),
            decreases to.len() - k,
        {
            out.push(to[k]);
            k += 1;
            assert(to@.take(k as int) =~= to@.take(k - 1) + seq![to@[k - 1]]);
        }
        assert(to@.take(to.len() as int) =~= to@);
    }
    assert(s@.skip(i as int) =~= Seq::<char>::empty());
    out
}

/// `str::replace` on strings: every occurrence of `from` in `s` is replaced
/// by `to`.
pub fn replace_all(s: &str, from: &str, to: &str) -> (r: String)
    ensures
        r@ == replaced(s@, from@, to@),
        from@.len() > 0 && nowhere_in(s@, from@) ==> r@ == s@,
{
    let sv = chars_of(s);
    let fv = chars_of(from);
    let tv = chars_of(to);
    let rv = replace_chars(&sv, &fv, &tv);
    string_of(&rv)
}

} // verus!
