//! An in-memory bilingual dictionary: entries pair a list of equivalent
//! headwords with one meaning string, and lookups scan the entries in
//! storage order under one of three match modes (exact, prefix, or
//! case-folded equality). The dictionary is built once, from entries an
//! external loader supplies, and is read-only from then on; lookups
//! either return a single best match or drive a lazy cursor over all
//! matching entries.

use vstd::prelude::*;

mod dictionary;
mod errors;
mod mode;
mod text;
mod word;

pub use dictionary::Candidates;
pub use dictionary::Dictionary;
pub use dictionary::first_match_index;
pub use dictionary::lemma_candidates_idempotent;
pub use dictionary::lemma_first_match_lowest;
pub use dictionary::lemma_matching_words_is_filter;
pub use dictionary::matching_words;
pub use errors::Error;
pub use errors::ErrorKind;
pub use mode::ConvertError;
pub use mode::SearchMode;
pub use text::char_index;
pub use text::find_char;
pub use text::lower_of;
pub use text::split_on;
pub use text::split_str;
pub use text::str_eq;
pub use text::str_starts_with;
pub use word::Word;
pub use word::WordView;
pub use word::mode_matches;
pub use word::word_matches;

verus! {

/// Look one pattern up in `dict`: the first matching entry in storage
/// order, or a `NotFound` error carrying the pattern.
pub fn look<'a>(dict: &'a Dictionary, word: &str, mode: SearchMode) -> (r: Result<
    &'a Word,
    Error,
>)
    ensures
        r is Ok <==> first_match_index(dict@, word@, mode) < dict@.len(),
        r matches Ok(w) ==> *w == dict@[first_match_index(dict@, word@, mode)],
        r matches Err(e) ==> e.kind_spec() matches ErrorKind::NotFound { en } && en@ == word@,
{
    match dict.look(word, mode) {
        Some(w) => Ok(w),
        None => Err(Error::new(ErrorKind::NotFound { en: word.to_owned() })),
    }
}

/// A cursor over the entries of `dict` matching `word` under `mode`, in
/// storage order. The dictionary value moves into the cursor.
pub fn candidates(dict: Dictionary, word: &str, mode: SearchMode) -> (r: Result<
    Candidates,
    Error,
>)
    ensures
        r is Ok,
        r matches Ok(c) ==> c.source() == dict@ && c.pattern() == word@ && c.search_mode() == mode
            && c.pending() == matching_words(dict@, word@, mode),
{
    Ok(dict.candidates(word, mode))
}

} // verus!
