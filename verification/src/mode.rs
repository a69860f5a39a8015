//! The three comparison strategies a lookup can use, and the parsing of
//! their textual names.

use vstd::prelude::*;

use crate::text::str_eq;

verus! {

/// How a headword is tested against a pattern: byte-exact equality,
/// prefix matching, or case-folded equality.
#[derive(Debug, Clone, Copy, PartialEq, Eq, Structural)]
pub enum SearchMode {
    Exact,
    Fuzzy,
    Lower,
}

/// Rejection of a string that names no search mode.
#[derive(Debug)]
pub enum ConvertError {
    InvalidSearchModeName { argument: String },
}

impl SearchMode {
    /// The canonical lowercase name of this mode.
    pub fn to_string(&self) -> (r: String)
        ensures
            r@ == (match *self {
                SearchMode::Exact => "exact"@,
                SearchMode::Fuzzy => "fuzzy"@,
                SearchMode::Lower => "lower"@,
            }),
    {
        match self {
            SearchMode::Exact => "exact".to_owned(),
            SearchMode::Fuzzy => "fuzzy".to_owned(),
            SearchMode::Lower => "lower".to_owned(),
        }
    }

    /// Map a canonical mode name to its mode; any other string fails,
    /// carried inside the error. No default is ever substituted.
    pub fn from_str(s: &str) -> (r: Result<SearchMode, ConvertError>)
        ensures
            r is Ok <==> (s@ == "exact"@ || s@ == "fuzzy"@ || s@ == "lower"@),
            s@ == "exact"@ ==> r == Ok::<SearchMode, ConvertError>(SearchMode::Exact),
            s@ == "fuzzy"@ ==> r == Ok::<SearchMode, ConvertError>(SearchMode::Fuzzy),
            s@ == "lower"@ ==> r == Ok::<SearchMode, ConvertError>(SearchMode::Lower),
            r matches Err(e) ==> e matches ConvertError::InvalidSearchModeName { argument }
                && argument@ == s@,
    {
        proof {
            reveal_strlit("exact");
            reveal_strlit("fuzzy");
            reveal_strlit("lower");
            assert("exact"@[0] == 'e' && "fuzzy"@[0] == 'f' && "lower"@[0] == 'l');
        }
        if str_eq(s, "exact") {
            return Ok(SearchMode::Exact);
        }
        if str_eq(s, "fuzzy") {
            return Ok(SearchMode::Fuzzy);
        }
        if str_eq(s, "lower") {
            return Ok(SearchMode::Lower);
        }
        Err(ConvertError::InvalidSearchModeName { argument: s.to_owned() })
    }
}

impl PartialEq for ConvertError {
    fn eq(&self, other: &ConvertError) -> (r: bool) {
        match (self, other) {
            (
                ConvertError::InvalidSearchModeName { argument: a },
                ConvertError::InvalidSearchModeName { argument: b },
            ) => str_eq(a.as_str(), b.as_str()),
        }
    }
}

impl vstd::std_specs::cmp::PartialEqSpecImpl for ConvertError {
    open spec fn obeys_eq_spec() -> bool {
        true
    }

    open spec fn eq_spec(&self, other: &ConvertError) -> bool {
        match (*self, *other) {
            (
                ConvertError::InvalidSearchModeName { argument: a },
                ConvertError::InvalidSearchModeName { argument: b },
            ) => a@ == b@,
        }
    }
}

} // verus!
