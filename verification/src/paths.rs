//! A plain-string model of file paths. A path is a string whose
//! components are separated by `/`; the base name is what follows the
//! last separator, and an extension is what follows the last `.` of the
//! base name, provided that dot is not its first character.

use vstd::prelude::*;

verus! {

/// The index of the last occurrence of `c` in `s`, or `-1` if `c` does
/// not occur.
pub open spec fn last_index_of(s: Seq<char>, c: char) -> int
    decreases s.len(),
{
    if s.len() == 0 {
        -1
    } else if s.last() == c {
        s.len() - 1
    } else {
        last_index_of(s.drop_last(), c)
    }
}

/// A position that holds `c` with no `c` after it is the last
/// occurrence.
proof fn lemma_last_index_of_at(s: Seq<char>, c: char, k: int)
    requires
        0 <= k < s.len(),
        s[k] == c,
        forall|j: int| k < j < s.len() ==> s[j] != c,
    ensures
        last_index_of(s, c) == k,
    decreases s.len(),
{
    if s.last() != c {
        assert(forall|j: int| 0 <= j < s.len() - 1 ==> s[j] == s.drop_last()[j]);
        lemma_last_index_of_at(s.drop_last(), c, k);
    }
}

/// No occurrence of `c` anywhere means `last_index_of` is `-1`.
proof fn lemma_last_index_of_none(s: Seq<char>, c: char)
    requires
        forall|j: int| 0 <= j < s.len() ==> s[j] != c,
    ensures
        last_index_of(s, c) == -1,
    decreases s.len(),
{
    if s.len() > 0 {
        assert(forall|j: int| 0 <= j < s.len() - 1 ==> s[j] == s.drop_last()[j]);
        lemma_last_index_of_none(s.drop_last(), c);
    }
}

/// The base name of a path: everything after its last `/`, or the whole
/// path when it has none.
pub open spec fn spec_base_name(path: Seq<char>) -> Seq<char> {
    path.subrange(last_index_of(path, '/') + 1, path.len() as int)
}

/// The directory prefix of a path: everything up to and including its
/// last `/`, or empty when it has none. Prefix and base name together
/// rebuild the path.
pub open spec fn spec_dir_prefix(path: Seq<char>) -> Seq<char> {
    path.subrange(0, last_index_of(path, '/') + 1)
}

/// The stem of a base name: everything before its last `.`, unless that
/// dot is absent or is the first character, in which case the whole name.
pub open spec fn spec_stem(name: Seq<char>) -> Seq<char> {
    if last_index_of(name, '.') <= 0 {
        name
    } else {
        name.subrange(0, last_index_of(name, '.'))
    }
}

/// The extension of a base name: everything after its last `.`, or
/// nothing when that dot is absent or is the first character.
pub open spec fn spec_ext(name: Seq<char>) -> Option<Seq<char>> {
    if last_index_of(name, '.') <= 0 {
        None
    } else {
        Some(name.subrange(last_index_of(name, '.') + 1, name.len() as int))
    }
}

/// Finds the index one past the last occurrence of `c`, or 0 when `c`
/// does not occur: exactly `last_index_of(s@, c) + 1`.
fn find_after_last(s: &str, c: char) -> (r: usize)
    ensures
        r == last_index_of(s@, c) + 1,
        r <= s@.len(),
{
    let n = s.unicode_len();
    let mut i: usize = n;
    while i > 0
        invariant
            i <= n,
            n == s@.len(),
            forall|j: int| i <= j < n ==> s@[j] != c,
        ensures
            i <= n,
            n == s@.len(),
            forall|j: int| i <= j < n ==> s@[j] != c,
            i == 0 || s@[i - 1] == c,
        decreases i,
    {
        if s.get_char(i - 1) == c {
            break ;
        }
        i = i - 1;
    }
    proof {
        if i == 0 {
            lemma_last_index_of_none(s@, c);
        } else {
            lemma_last_index_of_at(s@, c, i - 1);
        }
    }
    i
}

/// The base name of a path, per `spec_base_name`.
pub fn base_name<'a>(path: &'a str) -> (r: &'a str)
    ensures
        r@ == spec_base_name(path@),
{
    let cut = find_after_last(path, '/');
    path.substring_char(cut, path.unicode_len())
}

/// The directory prefix of a path, per `spec_dir_prefix`.
pub fn dir_prefix<'a>(path: &'a str) -> (r: &'a str)
    ensures
        r@ == spec_dir_prefix(path@),
{
    let cut = find_after_last(path, '/');
    path.substring_char(0, cut)
}

/// The stem of a base name, per `spec_stem`.
pub fn stem_of<'a>(name: &'a str) -> (r: &'a str)
    ensures
        r@ == spec_stem(name@),
{
    let cut = find_after_last(name, '.');
    if cut <= 1 {
        proof {
            assert(name@.subrange(0, name@.len() as int) =~= name@);
        }
        name.substring_char(0, name.unicode_len())
    } else {
        name.substring_char(0, cut - 1)
    }
}

/// The extension of a base name, per `spec_ext`.
pub fn extension_of<'a>(name: &'a str) -> (r: Option<&'a str>)
    ensures
        r matches Some(e) ==> spec_ext(name@) == Some(e@),
        r is None <==> spec_ext(name@) is None,
{
    let cut = find_after_last(name, '.');
    if cut <= 1 {
        None
    } else {
        Some(name.substring_char(cut, name.unicode_len()))
    }
}

} // verus!
