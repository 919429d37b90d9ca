use vstd::prelude::*;
use crate::error::Result;

verus! {

/// A dictionary entry; origin and meanings are absent when unknown.
#[derive(Clone, Debug)]
pub struct Word {
    pub word: String,
    pub origin: Option<String>,
    pub meanings: Option<Vec<Meaning>>,
}

pub type Words = Vec<Word>;

#[derive(Clone, Debug)]
pub struct Meaning {
    pub part_of_speech: String,
    pub definitions: Vec<Definition>,
}

#[derive(Clone, Debug)]
pub struct Definition {
    pub definition: String,
    pub example: Option<String>,
}

impl Word {
    /// The placeholder entry for a word the dictionary does not know.
    pub fn unknown(word: String) -> (r: Self)
        ensures
            r.word == word,
            r.origin is None,
            r.meanings is None,
    {
        Self { word, origin: None, meanings: None }
    }
}

/// The dictionary's request for the entries of `word`.
pub fn dictionary_url(word: &str) -> (r: String)
    ensures
        r@ == "https://api.dictionaryapi.dev/api/v2/entries/en/"@ + word@,
{
    let mut s = String::from_str("https://api.dictionaryapi.dev/api/v2/entries/en/");
    s.append(word);
    s
}

/// The entry used for `word` given what the dictionary lookup returned: its
/// first entry, or the placeholder when the lookup failed or found nothing.
/// A failed lookup never fails the caller.
pub fn lookup_dictionary_entry(word: &str, lookup: Result<Words>) -> (r: Word)
    ensures
        lookup matches Ok(v) ==> (v@.len() > 0 ==> r == v@[0]),
        lookup matches Ok(v) ==> (v@.len() == 0 ==> r.word@ == word@ && r.origin is None
            && r.meanings is None),
        lookup is Err ==> r.word@ == word@ && r.origin is None && r.meanings is None,
{
    match lookup {
        Ok(mut entries) => {
            if entries.len() > 0 {
                entries.swap_remove(0)
            } else {
                Word::unknown(word.to_string())
            }
        },
        Err(_) => Word::unknown(word.to_string()),
    }
}

} // verus!
