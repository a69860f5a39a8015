//! Dictionary entries and the match predicate: an entry matches a pattern
//! under a mode exactly when one of its headwords satisfies that mode's
//! comparison.

use vstd::prelude::*;
use vstd::string::StrSliceExecFns;

use crate::mode::SearchMode;
use crate::text::{char_index, find_char, lemma_char_index_bounds, lower_of, lowercase, split_on,
    split_str, str_eq, str_starts_with};

verus! {

/// Ghost form of an entry: its headword sequences and its meaning.
#[verifier::ext_equal]
pub struct WordView {
    pub words: Seq<Seq<char>>,
    pub mean: Seq<char>,
}

/// One dictionary record: one or more equivalent headwords paired with a
/// single meaning string. Created once, never mutated.
#[derive(Debug, Clone)]
pub struct Word {
    words: Vec<String>,
    mean: String,
}

impl View for Word {
    type V = WordView;

    closed spec fn view(&self) -> WordView {
        WordView { words: self.words.deep_view(), mean: self.mean@ }
    }
}

/// Whether one headword satisfies `mode` against the pattern `pat`:
/// equality for `Exact`, `pat` being a literal prefix for `Fuzzy`, and
/// equality of the case-folded forms for `Lower`.
pub open spec fn mode_matches(mode: SearchMode, head: Seq<char>, pat: Seq<char>) -> bool {
    match mode {
        SearchMode::Exact => head == pat,
        SearchMode::Fuzzy => pat.is_prefix_of(head),
        SearchMode::Lower => lower_of(head) == lower_of(pat),
    }
}

/// Whether some headword of `w` satisfies `mode` against `pat`. An entry
/// without headwords never matches.
pub open spec fn word_matches(w: Word, pat: Seq<char>, mode: SearchMode) -> bool {
    exists|i: int| 0 <= i < w@.words.len() && mode_matches(mode, w@.words[i], pat)
}

impl Word {
    /// Build an entry from its parts.
    pub fn new(words: Vec<String>, mean: String) -> (w: Word)
        ensures
            w@.words == words.deep_view(),
            w@.mean == mean@,
    {
        Word { words, mean }
    }

    /// Build an entry from one raw dictionary line, split once on the tab
    /// character: the text before the first tab, split on commas, gives
    /// the headwords; everything after the first tab is the meaning.
    pub fn parse_line(line: &str) -> (w: Word)
        requires
            line@.contains('\t'),
        ensures
            w@.words == split_on(split_on(line@, '\t')[0], ','),
            w@.mean == line@.skip(char_index(line@, '\t') + 1),
    {
        proof {
            let ci = char_index(line@, '\t');
            lemma_char_index_bounds(line@, '\t');
            let witness = choose|i: int| 0 <= i < line@.len() && line@[i] == '\t';
            assert(line@[witness] == '\t');
            assert(ci < line@.len());
            assert(split_on(line@, '\t') == seq![line@.take(ci)] + split_on(
                line@.skip(ci + 1),
                '\t',
            ));
            assert(split_on(line@, '\t')[0] == line@.take(ci));
        }
        let n = line.unicode_len();
        let i = find_char(line, '\t');
        let heads = line.substring_char(0, i);
        let mean = line.substring_char(i + 1, n).to_owned();
        let words = split_str(heads, ',');
        proof {
            assert(heads@ =~= line@.take(char_index(line@, '\t')));
            assert(mean@ =~= line@.skip(char_index(line@, '\t') + 1));
        }
        Word::new(words, mean)
    }

    /// The headwords, in their stored order.
    pub fn words(&self) -> (r: &Vec<String>)
        ensures
            r.deep_view() == self@.words,
    {
        &self.words
    }

    /// The meaning text.
    pub fn mean(&self) -> (r: &str)
        ensures
            r@ == self@.mean,
    {
        self.mean.as_str()
    }

    /// `Some(self)` when some headword satisfies `mode` against `pat`,
    /// `None` otherwise.
    pub fn matched<'a>(&'a self, pat: &str, mode: &SearchMode) -> (r: Option<&'a Word>)
        ensures
            r is Some <==> word_matches(*self, pat@, *mode),
            r matches Some(w) ==> w == self,
    {
        match mode {
            SearchMode::Exact => self.exact_matched(pat),
            SearchMode::Fuzzy => self.fuzzy_matched(pat),
            SearchMode::Lower => self.lower_matched(pat),
        }
    }

    fn exact_matched<'a>(&'a self, pat: &str) -> (r: Option<&'a Word>)
        ensures
            r is Some <==> word_matches(*self, pat@, SearchMode::Exact),
            r matches Some(w) ==> w == self,
    {
        let n = self.words.len();
        let mut k: usize = 0;
        while k < n
            invariant
                k <= n,
                n == self.words@.len(),
                forall|j: int| 0 <= j < k ==> !mode_matches(SearchMode::Exact, self@.words[j], pat@),
            decreases n - k,
        {
            if str_eq(self.words[k].as_str(), pat) {
                proof {
                    assert(mode_matches(SearchMode::Exact, self@.words[k as int], pat@));
                }
                return Some(self);
            }
            k += 1;
        }
        None
    }

    fn fuzzy_matched<'a>(&'a self, pat: &str) -> (r: Option<&'a Word>)
        ensures
            r is Some <==> word_matches(*self, pat@, SearchMode::Fuzzy),
            r matches Some(w) ==> w == self,
    {
        let n = self.words.len();
        let mut k: usize = 0;
        while k < n
            invariant
                k <= n,
                n == self.words@.len(),
                forall|j: int| 0 <= j < k ==> !mode_matches(SearchMode::Fuzzy, self@.words[j], pat@),
            decreases n - k,
        {
            if str_starts_with(self.words[k].as_str(), pat) {
                proof {
                    assert(mode_matches(SearchMode::Fuzzy, self@.words[k as int], pat@));
                }
                return Some(self);
            }
            k += 1;
        }
        None
    }

    fn lower_matched<'a>(&'a self, pat: &str) -> (r: Option<&'a Word>)
        ensures
            r is Some <==> word_matches(*self, pat@, SearchMode::Lower),
            r matches Some(w) ==> w == self,
    {
        let folded_pat = lowercase(pat);
        let n = self.words.len();
        let mut k: usize = 0;
        while k < n
            invariant
                k <= n,
                n == self.words@.len(),
                folded_pat@ == lower_of(pat@),
                forall|j: int| 0 <= j < k ==> !mode_matches(SearchMode::Lower, self@.words[j], pat@),
            decreases n - k,
        {
            let folded_head = lowercase(self.words[k].as_str());
            if folded_head == folded_pat {
                proof {
                    assert(mode_matches(SearchMode::Lower, self@.words[k as int], pat@));
                }
                return Some(self);
            }
            k += 1;
        }
        None
    }
}

impl From<(Vec<String>, String)> for Word {
    fn from(line: (Vec<String>, String)) -> (w: Word) {
        let (words, mean) = line;
        Word { words, mean }
    }
}

impl vstd::std_specs::convert::FromSpecImpl<(Vec<String>, String)> for Word {
    open spec fn obeys_from_spec() -> bool {
        true
    }

    closed spec fn from_spec(line: (Vec<String>, String)) -> Word {
        Word { words: line.0, mean: line.1 }
    }
}

impl PartialEq for Word {
    fn eq(&self, other: &Word) -> (r: bool) {
        if !str_eq(self.mean.as_str(), other.mean.as_str()) {
            return false;
        }
        let n = self.words.len();
        proof {
            assert(self@.words.len() == self.words@.len());
            assert(other@.words.len() == other.words@.len());
        }
        if n != other.words.len() {
            return false;
        }
        let mut k: usize = 0;
        while k < n
            invariant
                k <= n,
                n == self.words@.len(),
                n == other.words@.len(),
                forall|j: int| 0 <= j < k ==> self@.words[j] == other@.words[j],
            decreases n - k,
        {
            proof {
                assert(self@.words[k as int] == self.words@[k as int]@);
                assert(other@.words[k as int] == other.words@[k as int]@);
            }
            if !str_eq(self.words[k].as_str(), other.words[k].as_str()) {
                return false;
            }
            k += 1;
        }
        proof {
            assert(self@.words =~~= other@.words);
            assert(self@ =~~= other@);
        }
        true
    }
}

impl vstd::std_specs::cmp::PartialEqSpecImpl for Word {
    open spec fn obeys_eq_spec() -> bool {
        true
    }

    open spec fn eq_spec(&self, other: &Word) -> bool {
        self@ == other@
    }
}

} // verus!
