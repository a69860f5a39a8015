//! Character-level helpers for the dictionary's string handling: equality,
//! prefix testing, case folding, and splitting on a separator character.

use vstd::prelude::*;
use vstd::string::StrSliceExecFns;

verus! {

/// Index of the first occurrence of `c` in `s`, or `s.len()` if `c` does
/// not occur at all.
pub open spec fn char_index(s: Seq<char>, c: char) -> int
    decreases s.len(),
{
    if s.len() == 0 {
        0
    } else if s[0] == c {
        0
    } else {
        1 + char_index(s.drop_first(), c)
    }
}

/// `char_index` stays within bounds, lands on `c` when `c` occurs, and
/// nothing before it is `c`.
pub proof fn lemma_char_index_bounds(s: Seq<char>, c: char)
    ensures
        0 <= char_index(s, c) <= s.len(),
        char_index(s, c) < s.len() ==> s[char_index(s, c)] == c,
        forall|j: int| 0 <= j < char_index(s, c) ==> s[j] != c,
    decreases s.len(),
{
    if s.len() == 0 {
    } else if s[0] == c {
    } else {
        lemma_char_index_bounds(s.drop_first(), c);
        assert forall|j: int| 0 <= j < char_index(s, c) implies s[j] != c by {
            if j > 0 {
                assert(s.drop_first()[j - 1] == s[j]);
            }
        }
    }
}

/// A scan that saw no `c` before position `i`, and `c` at `i` unless it
/// reached the end, has found `char_index`.
pub proof fn lemma_char_index_of_scan(s: Seq<char>, c: char, i: int)
    requires
        0 <= i <= s.len(),
        forall|j: int| 0 <= j < i ==> s[j] != c,
        i < s.len() ==> s[i] == c,
    ensures
        char_index(s, c) == i,
    decreases s.len(),
{
    if s.len() == 0 {
    } else if s[0] == c {
    } else {
        assert forall|j: int| 0 <= j < i - 1 implies s.drop_first()[j] != c by {
            assert(s.drop_first()[j] == s[j + 1]);
        }
        lemma_char_index_of_scan(s.drop_first(), c, i - 1);
    }
}

/// The segments of `s` between occurrences of the separator `sep`, in
/// order. A string without `sep` is one segment; each separator ends a
/// segment, so `n` separators give `n + 1` segments, empty ones included.
pub open spec fn split_on(s: Seq<char>, sep: char) -> Seq<Seq<char>>
    decreases s.len(),
    via split_on_decreases
{
    if char_index(s, sep) == s.len() {
        seq![s]
    } else {
        seq![s.take(char_index(s, sep))] + split_on(s.skip(char_index(s, sep) + 1), sep)
    }
}

#[via_fn]
proof fn split_on_decreases(s: Seq<char>, sep: char) {
    lemma_char_index_bounds(s, sep);
}

/// The case-folded form of a character sequence, as `str::to_lowercase`
/// computes it.
pub uninterp spec fn lower_of(s: Seq<char>) -> Seq<char>;

/// Relies on str::to_lowercase: the result depends on the characters alone.
#[verifier::external_body]
pub(crate) fn lowercase(s: &str) -> (r: String)
    ensures
        r@ == lower_of(s@),
{
    s.to_lowercase()
}

/// Index of the first occurrence of `c` in `s`, or the length of `s` if
/// there is none.
pub fn find_char(s: &str, c: char) -> (r: usize)
    ensures
        r == char_index(s@, c),
{
    let n = s.unicode_len();
    let mut i: usize = 0;
    while i < n
        invariant
            i <= n,
            n == s@.len(),
            forall|j: int| 0 <= j < i ==> s@[j] != c,
        decreases n - i,
    {
        if s.get_char(i) == c {
            proof {
                lemma_char_index_of_scan(s@, c, i as int);
            }
            return i;
        }
        i += 1;
    }
    proof {
        lemma_char_index_of_scan(s@, c, i as int);
    }
    i
}

/// Split `s` at every occurrence of `sep`, keeping empty segments.
pub fn split_str(s: &str, sep: char) -> (r: Vec<String>)
    ensures
        r.deep_view() == split_on(s@, sep),
    decreases s@.len(),
{
    let n = s.unicode_len();
    let i = find_char(s, sep);
    proof {
        lemma_char_index_bounds(s@, sep);
    }
    if i == n {
        let mut r: Vec<String> = Vec::new();
        r.push(s.to_owned());
        proof {
            assert(r.deep_view() =~~= split_on(s@, sep));
        }
        r
    } else {
        let head = s.substring_char(0, i).to_owned();
        let rest = s.substring_char(i + 1, n);
        let mut r = split_str(rest, sep);
        let ghost tail_segments = r.deep_view();
        r.insert(0, head);
        proof {
            assert(rest@ =~= s@.skip(i as int + 1));
            assert(head@ =~= s@.take(i as int));
            assert(split_on(s@, sep) == seq![s@.take(i as int)] + split_on(
                s@.skip(i as int + 1),
                sep,
            ));
            assert forall|k: int| 0 <= k < r@.len() implies r.deep_view()[k] == (seq![head@]
                + tail_segments)[k] by {
                if k > 0 {
                    assert(r@[k] == r@.subrange(1, r@.len() as int)[k - 1]);
                }
            }
            assert(r.deep_view() =~~= split_on(s@, sep));
        }
        r
    }
}

/// Character-for-character equality of two string slices.
pub fn str_eq(a: &str, b: &str) -> (r: bool)
    ensures
        r == (a@ == b@),
{
    let n = a.unicode_len();
    if n != b.unicode_len() {
        return false;
    }
    let mut i: usize = 0;
    while i < n
        invariant
            i <= n,
            n == a@.len(),
            n == b@.len(),
            forall|j: int| 0 <= j < i ==> a@[j] == b@[j],
        decreases n - i,
    {
        if a.get_char(i) != b.get_char(i) {
            return false;
        }
        i += 1;
    }
    proof {
        assert(a@ =~= b@);
    }
    true
}

/// Whether `pre` is a prefix of `s`, character for character.
pub fn str_starts_with(s: &str, pre: &str) -> (r: bool)
    ensures
        r == pre@.is_prefix_of(s@),
{
    let np = pre.unicode_len();
    let ns = s.unicode_len();
    if np > ns {
        return false;
    }
    let mut i: usize = 0;
    while i < np
        invariant
            i <= np,
            np <= ns,
            np == pre@.len(),
            ns == s@.len(),
            forall|j: int| 0 <= j < i ==> pre@[j] == s@[j],
        decreases np - i,
    {
        if pre.get_char(i) != s.get_char(i) {
            proof {
                assert(!pre@.is_prefix_of(s@)) by {
                    if pre@.is_prefix_of(s@) {
                        assert(pre@[i as int] == s@.subrange(0, pre@.len() as int)[i as int]);
                    }
                }
            }
            return false;
        }
        i += 1;
    }
    proof {
        assert(pre@ =~= s@.subrange(0, pre@.len() as int));
    }
    true
}

} // verus!
