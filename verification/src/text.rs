//! Character-level text utilities: substring search, suffix tests, and
//! splitting on a separator, with full functional specifications.

use vstd::prelude::*;
use vstd::string::StrSliceExecFns;
use vstd::string::StringExecFns;

verus! {

/// The needle occurs in the haystack starting at character index `i`.
pub open spec fn match_at(hay: Seq<char>, needle: Seq<char>, i: int) -> bool {
    0 <= i && i + needle.len() <= hay.len() && hay.subrange(i, i + needle.len()) == needle
}

/// Index of the first occurrence of `needle` in `hay` at or after `from`.
pub open spec fn find_from_spec(hay: Seq<char>, needle: Seq<char>, from: int) -> Option<int>
    decreases hay.len() - from + 1,
{
    if from < 0 || from + needle.len() > hay.len() {
        None
    } else if hay.subrange(from, from + needle.len()) == needle {
        Some(from)
    } else {
        find_from_spec(hay, needle, from + 1)
    }
}

/// The haystack holds the needle somewhere.
pub open spec fn contains_seq(hay: Seq<char>, needle: Seq<char>) -> bool {
    exists|i: int| match_at(hay, needle, i)
}

/// The sequence ends with the given suffix.
pub open spec fn ends_with_seq(s: Seq<char>, suffix: Seq<char>) -> bool {
    s.len() >= suffix.len() && s.subrange(s.len() - suffix.len(), s.len() as int) == suffix
}

/// A successful search is a match, and the first one at or after `from`.
pub proof fn lemma_find_from_some(hay: Seq<char>, needle: Seq<char>, from: int, j: int)
    requires
        find_from_spec(hay, needle, from) == Some(j),
    ensures
        match_at(hay, needle, j),
        from <= j,
        forall|k: int| from <= k < j ==> !match_at(hay, needle, k),
    decreases hay.len() - from + 1,
{
    if from < 0 || from + needle.len() > hay.len() {
    } else if hay.subrange(from, from + needle.len()) == needle {
    } else {
        lemma_find_from_some(hay, needle, from + 1, j);
        assert(!match_at(hay, needle, from));
    }
}

/// A failed search means no match at or after `from`.
pub proof fn lemma_find_from_none(hay: Seq<char>, needle: Seq<char>, from: int)
    requires
        find_from_spec(hay, needle, from) == None::<int>,
        from >= 0,
    ensures
        forall|k: int| k >= from ==> !match_at(hay, needle, k),
    decreases hay.len() - from + 1,
{
    if from + needle.len() > hay.len() {
        assert forall|k: int| k >= from implies !match_at(hay, needle, k) by {
            assert(k + needle.len() > hay.len());
        }
    } else if hay.subrange(from, from + needle.len()) == needle {
    } else {
        lemma_find_from_none(hay, needle, from + 1);
        assert(!match_at(hay, needle, from));
    }
}

/// Containment coincides with a successful search from the start.
pub proof fn lemma_contains_iff_find(hay: Seq<char>, needle: Seq<char>)
    ensures
        contains_seq(hay, needle) <==> find_from_spec(hay, needle, 0) is Some,
{
    match find_from_spec(hay, needle, 0) {
        Some(j) => {
            lemma_find_from_some(hay, needle, 0, j);
        },
        None => {
            lemma_find_from_none(hay, needle, 0);
            assert forall|i: int| !match_at(hay, needle, i) by {
                if i >= 0 {
                    assert(!match_at(hay, needle, i));
                }
            }
        },
    }
}

/// The needle matches the haystack at character index `i`.
fn matches_at(hay: &str, hay_len: usize, needle: &str, needle_len: usize, i: usize) -> (b: bool)
    requires
        hay_len == hay@.len(),
        needle_len == needle@.len(),
        i + needle_len <= hay_len,
    ensures
        b == match_at(hay@, needle@, i as int),
{
    let mut j: usize = 0;
    while j < needle_len
        invariant
            hay_len == hay@.len(),
            needle_len == needle@.len(),
            i + needle_len <= hay_len,
            0 <= j <= needle_len,
            forall|k: int| 0 <= k < j ==> hay@[i + k] == needle@[k],
        decreases needle_len - j,
    {
        if hay.get_char(i + j) != needle.get_char(j) {
            assert(hay@.subrange(i as int, i + needle_len) != needle@) by {
                assert(hay@.subrange(i as int, i + needle_len)[j as int] == hay@[i + j]);
            }
            return false;
        }
        j += 1;
    }
    assert(hay@.subrange(i as int, i + needle_len) =~= needle@);
    true
}

/// Index of the first occurrence of `needle` in `hay` at or after `from`,
/// counting in characters.
pub fn find_substring_from(hay: &str, needle: &str, from: usize) -> (r: Option<usize>)
    ensures
        match r {
            Some(j) => find_from_spec(hay@, needle@, from as int) == Some(j as int),
            None => find_from_spec(hay@, needle@, from as int) is None,
        },
{
    let hay_len = hay.unicode_len();
    let needle_len = needle.unicode_len();
    if needle_len > hay_len || from > hay_len - needle_len {
        assert(find_from_spec(hay@, needle@, from as int) is None);
        return None;
    }
    if needle_len == 0 {
        assert(hay@.subrange(from as int, from as int) =~= needle@);
        return Some(from);
    }
    let mut i: usize = from;
    while i <= hay_len - needle_len
        invariant
            hay_len == hay@.len(),
            needle_len == needle@.len(),
            0 < needle_len <= hay_len,
            from <= i,
            i <= hay_len - needle_len + 1,
            find_from_spec(hay@, needle@, from as int) == find_from_spec(
                hay@,
                needle@,
                i as int,
            ),
        decreases hay_len - i,
    {
        if matches_at(hay, hay_len, needle, needle_len, i) {
            return Some(i);
        }
        i += 1;
    }
    assert(find_from_spec(hay@, needle@, i as int) is None);
    None
}

/// The haystack holds the needle somewhere, counting in characters.
pub fn contains_substring(hay: &str, needle: &str) -> (b: bool)
    ensures
        b == contains_seq(hay@, needle@),
{
    proof {
        lemma_contains_iff_find(hay@, needle@);
    }
    match find_substring_from(hay, needle, 0) {
        Some(_) => true,
        None => false,
    }
}

/// The string ends with the given suffix.
pub fn ends_with_str(s: &str, suffix: &str) -> (b: bool)
    ensures
        b == ends_with_seq(s@, suffix@),
{
    let s_len = s.unicode_len();
    let suf_len = suffix.unicode_len();
    if suf_len > s_len {
        return false;
    }
    let start = s_len - suf_len;
    let mut j: usize = 0;
    while j < suf_len
        invariant
            s_len == s@.len(),
            suf_len == suffix@.len(),
            suf_len <= s_len,
            start == s_len - suf_len,
            0 <= j <= suf_len,
            forall|k: int| 0 <= k < j ==> s@[start + k] == suffix@[k],
        decreases suf_len - j,
    {
        if s.get_char(start + j) != suffix.get_char(j) {
            assert(s@.subrange(s@.len() - suffix@.len(), s@.len() as int) != suffix@) by {
                assert(s@.subrange(s@.len() - suffix@.len(), s@.len() as int)[j as int] == s@[start
                    + j]);
            }
            return false;
        }
        j += 1;
    }
    assert(s@.subrange(s@.len() - suffix@.len(), s@.len() as int) =~= suffix@);
    true
}

/// The pieces of `s` split on `sep`, with `acc` the piece read so far.
pub open spec fn split_on_from(s: Seq<char>, sep: char, acc: Seq<char>) -> Seq<Seq<char>>
    decreases s.len(),
{
    if s.len() == 0 {
        seq![acc]
    } else if s[0] == sep {
        seq![acc] + split_on_from(s.subrange(1, s.len() as int), sep, Seq::empty())
    } else {
        split_on_from(s.subrange(1, s.len() as int), sep, acc.push(s[0]))
    }
}

/// The pieces of `s` split on the separator `sep`; always at least one piece.
pub open spec fn split_on(s: Seq<char>, sep: char) -> Seq<Seq<char>> {
    split_on_from(s, sep, Seq::empty())
}

/// Split `s` on the separator character, keeping empty pieces.
pub fn split_string(s: &str, sep: char) -> (r: Vec<String>)
    ensures
        r.deep_view() == split_on(s@, sep),
{
    let len = s.unicode_len();
    let mut out: Vec<String> = Vec::new();
    let mut cur: String = String::new();
    let mut i: usize = 0;
    proof {
        assert(out.deep_view() =~= Seq::<Seq<char>>::empty());
        assert(s@.subrange(0, len as int) =~= s@);
        assert(out.deep_view() + split_on_from(s@, sep, cur@) =~= split_on_from(s@, sep, cur@));
    }
    while i < len
        invariant
            len == s@.len(),
            0 <= i <= len,
            split_on(s@, sep) == out.deep_view() + split_on_from(
                s@.subrange(i as int, len as int),
                sep,
                cur@,
            ),
        decreases len - i,
    {
        let ghost prev_out = out.deep_view();
        let ghost prev_cur = cur@;
        let ghost rest = s@.subrange(i as int, len as int);
        let c = s.get_char(i);
        if c == sep {
            out.push(cur);
            cur = String::new();
            proof {
                assert(out.deep_view() =~= prev_out.push(prev_cur));
                assert(rest.subrange(1, rest.len() as int) =~= s@.subrange(
                    i + 1,
                    len as int,
                ));
                assert(split_on_from(rest, sep, prev_cur) == seq![prev_cur] + split_on_from(
                    s@.subrange(i + 1, len as int),
                    sep,
                    Seq::empty(),
                ));
                assert(prev_out + split_on_from(rest, sep, prev_cur) =~= out.deep_view()
                    + split_on_from(s@.subrange(i + 1, len as int), sep, cur@));
            }
        } else {
            let piece = s.substring_char(i, i + 1);
            cur.append(piece);
            proof {
                assert(cur@ =~= prev_cur.push(s@[i as int]));
                assert(rest.subrange(1, rest.len() as int) =~= s@.subrange(
                    i + 1,
                    len as int,
                ));
                assert(split_on_from(rest, sep, prev_cur) == split_on_from(
                    s@.subrange(i + 1, len as int),
                    sep,
                    cur@,
                ));
            }
        }
        i += 1;
    }
    let ghost prev_out = out.deep_view();
    let ghost prev_cur = cur@;
    out.push(cur);
    proof {
        assert(s@.subrange(len as int, len as int) =~= Seq::<char>::empty());
        assert(split_on_from(s@.subrange(len as int, len as int), sep, prev_cur) == seq![prev_cur]);
        assert(out.deep_view() =~= prev_out.push(prev_cur));
        assert(prev_out + seq![prev_cur] =~= out.deep_view());
    }
    out
}

} // verus!
