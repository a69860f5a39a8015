//! The dictionary itself: an immutable ordered list of entries, a linear
//! single-result lookup, and a lazy cursor over the matching entries.

use vstd::prelude::*;
use vstd::seq_lib::*;

use crate::mode::SearchMode;
use crate::word::{Word, word_matches};

verus! {

/// Index of the first entry in `entries` that matches `pat` under `mode`,
/// or `entries.len()` when none does.
pub open spec fn first_match_index(entries: Seq<Word>, pat: Seq<char>, mode: SearchMode) -> int
    decreases entries.len(),
{
    if entries.len() == 0 {
        0
    } else if word_matches(entries[0], pat, mode) {
        0
    } else {
        1 + first_match_index(entries.drop_first(), pat, mode)
    }
}

/// The subsequence of `entries` that match `pat` under `mode`, in
/// storage order.
pub open spec fn matching_words(entries: Seq<Word>, pat: Seq<char>, mode: SearchMode) -> Seq<
    Word,
>
    decreases entries.len(),
{
    if entries.len() == 0 {
        Seq::empty()
    } else if word_matches(entries[0], pat, mode) {
        seq![entries[0]] + matching_words(entries.drop_first(), pat, mode)
    } else {
        matching_words(entries.drop_first(), pat, mode)
    }
}

/// `first_match_index` is the lowest matching storage index: it stays in
/// bounds, everything before it fails to match, and it matches whenever
/// it is in range -- so it equals `entries.len()` exactly when no entry
/// matches at all.
pub proof fn lemma_first_match_lowest(entries: Seq<Word>, pat: Seq<char>, mode: SearchMode)
    ensures
        0 <= first_match_index(entries, pat, mode) <= entries.len(),
        first_match_index(entries, pat, mode) < entries.len() ==> word_matches(
            entries[first_match_index(entries, pat, mode)],
            pat,
            mode,
        ),
        forall|j: int|
            0 <= j < first_match_index(entries, pat, mode) ==> !word_matches(entries[j], pat, mode),
    decreases entries.len(),
{
    if entries.len() == 0 {
    } else if word_matches(entries[0], pat, mode) {
    } else {
        lemma_first_match_lowest(entries.drop_first(), pat, mode);
        assert forall|j: int|
            0 <= j < first_match_index(entries, pat, mode) implies !word_matches(
            entries[j],
            pat,
            mode,
        ) by {
            if j > 0 {
                assert(entries.drop_first()[j - 1] == entries[j]);
            }
        }
    }
}

/// A scan that found no match before `i`, and a match at `i` unless it
/// reached the end, has found `first_match_index`.
proof fn lemma_first_match_of_scan(entries: Seq<Word>, pat: Seq<char>, mode: SearchMode, i: int)
    requires
        0 <= i <= entries.len(),
        forall|j: int| 0 <= j < i ==> !word_matches(entries[j], pat, mode),
        i < entries.len() ==> word_matches(entries[i], pat, mode),
    ensures
        first_match_index(entries, pat, mode) == i,
    decreases entries.len(),
{
    if entries.len() == 0 {
    } else if word_matches(entries[0], pat, mode) {
    } else {
        assert forall|j: int| 0 <= j < i - 1 implies !word_matches(
            entries.drop_first()[j],
            pat,
            mode,
        ) by {
            assert(entries.drop_first()[j] == entries[j + 1]);
        }
        lemma_first_match_of_scan(entries.drop_first(), pat, mode, i - 1);
    }
}

proof fn lemma_matching_words_filter_rec(
    entries: Seq<Word>,
    pat: Seq<char>,
    mode: SearchMode,
    pred: spec_fn(Word) -> bool,
)
    requires
        forall|w: Word| #[trigger] pred(w) == word_matches(w, pat, mode),
    ensures
        matching_words(entries, pat, mode) == entries.filter(pred),
    decreases entries.len(),
{
    reveal(Seq::filter);
    if entries.len() == 0 {
        assert(entries.filter(pred) =~= Seq::<Word>::empty());
    } else {
        lemma_matching_words_filter_rec(entries.drop_first(), pat, mode, pred);
        let single = seq![entries[0]];
        assert(entries =~= single + entries.drop_first());
        Seq::filter_distributes_over_add(single, entries.drop_first(), pred);
        assert(single.drop_last() =~= Seq::<Word>::empty());
        assert(Seq::<Word>::empty().filter(pred) =~= Seq::<Word>::empty());
        assert(single.last() == entries[0]);
        if pred(entries[0]) {
            assert(single.filter(pred) =~= seq![entries[0]]);
        } else {
            assert(single.filter(pred) =~= Seq::<Word>::empty());
            assert(matching_words(entries, pat, mode) =~= entries.filter(pred));
        }
    }
}

/// The candidate stream is the filtering of the entries, order-preserving
/// and complete: `matching_words` is exactly `Seq::filter` under the
/// match predicate.
pub proof fn lemma_matching_words_is_filter(entries: Seq<Word>, pat: Seq<char>, mode: SearchMode)
    ensures
        matching_words(entries, pat, mode) == entries.filter(
            |w: Word| word_matches(w, pat, mode),
        ),
{
    lemma_matching_words_filter_rec(entries, pat, mode, |w: Word| word_matches(w, pat, mode));
}

/// An immutable ordered collection of entries. Order is significant: it
/// ranks `look` results and fixes the iteration order of `candidates`.
#[derive(Debug)]
pub struct Dictionary {
    words: Vec<Word>,
}

impl View for Dictionary {
    type V = Seq<Word>;

    closed spec fn view(&self) -> Seq<Word> {
        self.words@
    }
}

impl Dictionary {
    /// Build a dictionary from entries, keeping their order.
    pub fn new(words: Vec<Word>) -> (d: Dictionary)
        ensures
            d@ == words@,
    {
        Dictionary { words }
    }

    /// The entry at the lowest storage index that matches `pat` under
    /// `mode`, or `None` when no entry matches. A linear scan; read-only.
    pub fn look(&self, pat: &str, mode: SearchMode) -> (r: Option<&Word>)
        ensures
            r is Some <==> first_match_index(self@, pat@, mode) < self@.len(),
            r matches Some(w) ==> *w == self@[first_match_index(self@, pat@, mode)],
    {
        let n = self.words.len();
        let mut i: usize = 0;
        while i < n
            invariant
                i <= n,
                n == self.words@.len(),
                forall|j: int| 0 <= j < i ==> !word_matches(self.words@[j], pat@, mode),
            decreases n - i,
        {
            if self.words[i].matched(pat, &mode).is_some() {
                proof {
                    lemma_first_match_of_scan(self.words@, pat@, mode, i as int);
                }
                return Some(&self.words[i]);
            }
            i += 1;
        }
        proof {
            lemma_first_match_of_scan(self.words@, pat@, mode, i as int);
        }
        None
    }

    /// A cursor over the entries that match `pat` under `mode`, in
    /// storage order. The dictionary's entries move into the cursor; a
    /// fresh `candidates` call needs a fresh dictionary value.
    pub fn candidates(self, pat: &str, mode: SearchMode) -> (c: Candidates)
        ensures
            c.source() == self@,
            c.pattern() == pat@,
            c.search_mode() == mode,
            c.pending() == matching_words(self@, pat@, mode),
    {
        Candidates::new(self.words, pat.to_owned(), mode)
    }
}

/// A lazy, pull-based sequence of the matching entries: a private cursor
/// holding the entries not yet scanned, the pattern, and the mode. It is
/// driven by `next` and is not restartable.
#[derive(Debug, Clone)]
pub struct Candidates {
    words: Vec<Word>,
    pat: String,
    mode: SearchMode,
}

impl Candidates {
    /// The entries the cursor has not yet scanned, in storage order.
    pub closed spec fn source(&self) -> Seq<Word> {
        self.words@
    }

    /// The pattern every produced entry is matched against.
    pub closed spec fn pattern(&self) -> Seq<char> {
        self.pat@
    }

    /// The mode every produced entry is matched under.
    pub closed spec fn search_mode(&self) -> SearchMode {
        self.mode
    }

    /// The matches the cursor has yet to produce, in order.
    pub open spec fn pending(&self) -> Seq<Word> {
        matching_words(self.source(), self.pattern(), self.search_mode())
    }

    fn new(words: Vec<Word>, pat: String, mode: SearchMode) -> (c: Candidates)
        ensures
            c.source() == words@,
            c.pattern() == pat@,
            c.search_mode() == mode,
    {
        Candidates { words, pat, mode }
    }

    /// Produce the next matching entry, scanning forward from the last
    /// scan position and stopping at the first match. Returns `None`
    /// exactly when no matches remain -- and once it does, every later
    /// call returns `None` as well: exhaustion is permanent.
    pub fn next(&mut self) -> (r: Option<Word>)
        ensures
            final(self).pattern() == old(self).pattern(),
            final(self).search_mode() == old(self).search_mode(),
            r is Some <==> old(self).pending().len() > 0,
            old(self).pending().len() > 0 ==> r == Some(old(self).pending()[0])
                && final(self).pending() == old(self).pending().drop_first(),
            old(self).pending().len() == 0 ==> final(self).pending().len() == 0,
    {
        loop
            invariant
                self.pat@ == old(self).pattern(),
                self.mode == old(self).search_mode(),
                matching_words(self.words@, self.pat@, self.mode) == old(self).pending(),
            decreases self.words@.len(),
        {
            if self.words.len() == 0 {
                return None;
            }
            let ghost prev = self.words@;
            let w = self.words.remove(0);
            proof {
                assert(w == prev[0]);
                assert(self.words@ =~= prev.drop_first());
            }
            if w.matched(self.pat.as_str(), &self.mode).is_some() {
                proof {
                    assert(matching_words(prev, self.pat@, self.mode) == seq![prev[0]]
                        + matching_words(prev.drop_first(), self.pat@, self.mode));
                    assert(old(self).pending()[0] == w);
                    assert(old(self).pending().drop_first() =~= matching_words(
                        self.words@,
                        self.pat@,
                        self.mode,
                    ));
                }
                return Some(w);
            }
            proof {
                assert(matching_words(prev, self.pat@, self.mode) == matching_words(
                    prev.drop_first(),
                    self.pat@,
                    self.mode,
                ));
            }
        }
    }
}

/// Two candidate cursors built over equal entry sequences with the same
/// pattern and mode have element-for-element equal output: driving either
/// to exhaustion yields the same entries in the same order.
pub proof fn lemma_candidates_idempotent(c1: Candidates, c2: Candidates)
    requires
        c1.source() == c2.source(),
        c1.pattern() == c2.pattern(),
        c1.search_mode() == c2.search_mode(),
    ensures
        c1.pending() == c2.pending(),
{
}

} // verus!
