//! Character-level text utilities: white space, trimming, comma
//! splitting, and lower-casing, used to parse extension lists and to
//! normalise file extensions.

use vstd::prelude::*;

verus! {

/// A white-space character: one of the Unicode `White_Space` code points,
/// the set that `str::trim` removes at either end of a string.
pub open spec fn is_space(c: char) -> bool {
    (0x09 <= c as u32 && c as u32 <= 0x0d) || c as u32 == 0x20 || c as u32 == 0x85 || c as u32
        == 0xa0 || c as u32 == 0x1680 || (0x2000 <= c as u32 && c as u32 <= 0x200a) || c as u32
        == 0x2028 || c as u32 == 0x2029 || c as u32 == 0x202f || c as u32 == 0x205f || c as u32
        == 0x3000
}

/// Decides `is_space` for one character.
pub fn is_space_char(c: char) -> (r: bool)
    ensures
        r == is_space(c),
{
    let u = c as u32;
    (0x09 <= u && u <= 0x0d) || u == 0x20 || u == 0x85 || u == 0xa0 || u == 0x1680 || (0x2000 <= u
        && u <= 0x200a) || u == 0x2028 || u == 0x2029 || u == 0x202f || u == 0x205f || u == 0x3000
}

/// The text with its leading white space removed.
pub open spec fn spec_trim_start(s: Seq<char>) -> Seq<char>
    decreases s.len(),
{
    if s.len() > 0 && is_space(s[0]) {
        spec_trim_start(s.drop_first())
    } else {
        s
    }
}

/// The text with its trailing white space removed.
pub open spec fn spec_trim_end(s: Seq<char>) -> Seq<char>
    decreases s.len(),
{
    if s.len() > 0 && is_space(s.last()) {
        spec_trim_end(s.drop_last())
    } else {
        s
    }
}

/// The text with white space removed from both ends.
pub open spec fn spec_trim(s: Seq<char>) -> Seq<char> {
    spec_trim_end(spec_trim_start(s))
}

proof fn lemma_trim_start_subrange(s: Seq<char>, lo: int)
    requires
        0 <= lo <= s.len(),
        forall|j: int| 0 <= j < lo ==> is_space(s[j]),
        lo == s.len() || !is_space(s[lo]),
    ensures
        spec_trim_start(s) == s.subrange(lo, s.len() as int),
    decreases lo,
{
    if lo == 0 {
        assert(s.subrange(0, s.len() as int) =~= s);
    } else {
        let t = s.drop_first();
        assert(forall|j: int| 0 <= j < lo - 1 ==> is_space(t[j]));
        lemma_trim_start_subrange(t, lo - 1);
        assert(t.subrange(lo - 1, t.len() as int) =~= s.subrange(lo, s.len() as int));
    }
}

proof fn lemma_trim_end_subrange(s: Seq<char>, hi: int)
    requires
        0 <= hi <= s.len(),
        forall|j: int| hi <= j < s.len() ==> is_space(s[j]),
        hi == 0 || !is_space(s[hi - 1]),
    ensures
        spec_trim_end(s) == s.subrange(0, hi),
    decreases s.len() - hi,
{
    if hi == s.len() {
        assert(s.subrange(0, hi) =~= s);
    } else {
        let t = s.drop_last();
        assert(forall|j: int| hi <= j < t.len() ==> is_space(t[j]));
        lemma_trim_end_subrange(t, hi);
        assert(t.subrange(0, hi) =~= s.subrange(0, hi));
    }
}

/// Removes white space from both ends, as `spec_trim` describes.
pub fn trim_str<'a>(s: &'a str) -> (r: &'a str)
    ensures
        r@ == spec_trim(s@),
{
    let n = s.unicode_len();
    let mut lo: usize = 0;
    while lo < n
        invariant
            lo <= n,
            n == s@.len(),
            forall|j: int| 0 <= j < lo ==> is_space(s@[j]),
        ensures
            lo <= n,
            n == s@.len(),
            forall|j: int| 0 <= j < lo ==> is_space(s@[j]),
            lo == n || !is_space(s@[lo as int]),
        decreases n - lo,
    {
        if is_space_char(s.get_char(lo)) {
            lo = lo + 1;
        } else {
            break ;
        }
    }
    let mut hi: usize = n;
    while hi > lo
        invariant
            lo <= hi <= n,
            n == s@.len(),
            forall|j: int| hi <= j < n ==> is_space(s@[j]),
        ensures
            lo <= hi <= n,
            n == s@.len(),
            forall|j: int| hi <= j < n ==> is_space(s@[j]),
            hi == lo || !is_space(s@[hi - 1]),
        decreases hi,
    {
        if is_space_char(s.get_char(hi - 1)) {
            hi = hi - 1;
        } else {
            break ;
        }
    }
    proof {
        lemma_trim_start_subrange(s@, lo as int);
        let t = s@.subrange(lo as int, s@.len() as int);
        assert(forall|j: int| hi - lo <= j < t.len() ==> is_space(t[j]));
        lemma_trim_end_subrange(t, hi - lo);
        assert(t.subrange(0, hi - lo) =~= s@.subrange(lo as int, hi as int));
    }
    s.substring_char(lo, hi)
}

/// The lower-case form of a text, as Unicode case mapping defines it.
pub uninterp spec fn lower_of(s: Seq<char>) -> Seq<char>;

/// Relies on `str::to_lowercase`: the result depends on the characters of
/// the input alone, and an empty input stays empty.
#[verifier::external_body]
pub(crate) fn lowercase(s: &str) -> (r: String)
    ensures
        r@ == lower_of(s@),
        s@.len() == 0 ==> r@.len() == 0,
{
    s.to_lowercase()
}

/// The pieces of a text between its commas, scanning from position `i`
/// with the current piece starting at `start`. Every text has at least
/// one piece: splitting an empty text gives one empty piece.
pub open spec fn split_commas_from(s: Seq<char>, i: int, start: int) -> Seq<Seq<char>>
    decreases s.len() - i,
{
    if i < 0 || i >= s.len() {
        seq![s.subrange(start, s.len() as int)]
    } else if s[i] == ',' {
        seq![s.subrange(start, i)] + split_commas_from(s, i + 1, i + 1)
    } else {
        split_commas_from(s, i + 1, start)
    }
}

/// The pieces of a text between its commas, in order.
pub open spec fn split_commas(s: Seq<char>) -> Seq<Seq<char>> {
    split_commas_from(s, 0, 0)
}

/// Each piece trimmed and lower-cased, with the pieces that end up empty
/// dropped; order is kept.
pub open spec fn clean_tokens(toks: Seq<Seq<char>>) -> Seq<Seq<char>>
    decreases toks.len(),
{
    if toks.len() == 0 {
        Seq::empty()
    } else {
        let rest = clean_tokens(toks.drop_last());
        let t = lower_of(spec_trim(toks.last()));
        if t.len() > 0 {
            rest.push(t)
        } else {
            rest
        }
    }
}

/// The extension tokens of a comma-separated list: split on commas, trim
/// each token, lower-case it, and drop the tokens that are empty.
pub open spec fn spec_parse_extensions(s: Seq<char>) -> Seq<Seq<char>> {
    clean_tokens(split_commas(s))
}

/// Trims and lower-cases one token and appends it to `out` unless it is
/// empty.
fn push_clean(out: &mut Vec<String>, tok: &str)
    ensures
        final(out).deep_view() == ({
            let t = lower_of(spec_trim(tok@));
            if t.len() > 0 {
                old(out).deep_view().push(t)
            } else {
                old(out).deep_view()
            }
        }),
{
    let trimmed = trim_str(tok);
    let low = lowercase(trimmed);
    if !low.as_str().is_empty() {
        out.push(low);
        proof {
            assert(out.deep_view() =~= old(out).deep_view().push(lower_of(spec_trim(tok@))));
        }
    }
}

/// Parses a comma-separated extension list: tokens are trimmed,
/// lower-cased, and kept in order; empty tokens are dropped.
pub fn parse_extensions(list: &str) -> (r: Vec<String>)
    ensures
        r.deep_view() == spec_parse_extensions(list@),
{
    let n = list.unicode_len();
    let mut out: Vec<String> = Vec::new();
    let mut start: usize = 0;
    let mut i: usize = 0;
    let ghost mut committed: Seq<Seq<char>> = Seq::empty();
    proof {
        assert(committed + split_commas_from(list@, 0, 0) =~= split_commas(list@));
        assert(out.deep_view() =~= clean_tokens(committed));
    }
    while i < n
        invariant
            start <= i <= n,
            n == list@.len(),
            forall|j: int| start <= j < i ==> list@[j] != ',',
            split_commas(list@) == committed + split_commas_from(list@, i as int, start as int),
            out.deep_view() == clean_tokens(committed),
        decreases n - i,
    {
        if list.get_char(i) == ',' {
            let tok = list.substring_char(start, i);
            push_clean(&mut out, tok);
            proof {
                let piece = list@.subrange(start as int, i as int);
                assert(committed + split_commas_from(list@, i as int, start as int)
                    =~= committed.push(piece) + split_commas_from(list@, i + 1, i + 1));
                assert(committed.push(piece).drop_last() =~= committed);
                assert(committed.push(piece).last() == piece);
                committed = committed.push(piece);
            }
            start = i + 1;
        }
        i = i + 1;
    }
    let tok = list.substring_char(start, n);
    push_clean(&mut out, tok);
    proof {
        let piece = list@.subrange(start as int, n as int);
        assert(split_commas_from(list@, n as int, start as int) =~= seq![piece]);
        assert(committed + seq![piece] =~= committed.push(piece));
        assert(committed.push(piece).drop_last() =~= committed);
        assert(committed.push(piece).last() == piece);
        assert(out.deep_view() == clean_tokens(committed.push(piece)));
        assert(split_commas(list@) == committed.push(piece));
    }
    out
}

} // verus!
