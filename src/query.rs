use vstd::prelude::*;
use crate::sampler::get_random_song_index;

verus! {

/// The lower-case letters, in order.
pub open spec fn alphabet() -> Seq<char> {
    "abcdefghijklmnopqrstuvwxyz"@
}

/// The field a query is aimed at, as the search syntax names it.
pub open spec fn field_prefix(field: u64) -> Seq<char> {
    if field == 0 {
        "artist:"@
    } else if field == 1 {
        "track:"@
    } else {
        "album:"@
    }
}

/// Relies on random_word's `gen_starts_with`: a random English word that the
/// crate's list files under `letter`, or nothing when it files none there.
/// The list files each word under its first character, and holds no empty word.
#[verifier::external_body]
fn word_starting_with(letter: char) -> (r: Option<String>)
    ensures
        r matches Some(w) ==> w@.len() > 0 && w@[0] == letter,
{
    random_word::gen_starts_with(letter, random_word::Lang::En).map(String::from)
}

fn letter_str(i: u64) -> (r: &'static str)
    requires
        i < 26,
    ensures
        r@ == seq![alphabet()[i as int]],
{
    let letters = "abcdefghijklmnopqrstuvwxyz";
    proof {
        reveal_strlit("abcdefghijklmnopqrstuvwxyz");
    }
    let r = letters.substring_char(i as usize, (i + 1) as usize);
    assert(r@ =~= seq![alphabet()[i as int]]);
    r
}

fn letter_char(i: u64) -> (r: char)
    requires
        i < 26,
    ensures
        r == alphabet()[i as int],
{
    let letters = "abcdefghijklmnopqrstuvwxyz";
    proof {
        reveal_strlit("abcdefghijklmnopqrstuvwxyz");
    }
    letters.get_char(i as usize)
}

/// The letter tried `k` places after the letter at `first`, wrapping round
/// the alphabet.
pub fn letter_to_try(first: u64, k: u64) -> (r: char)
    requires
        first < 26,
        k < 26,
    ensures
        r == alphabet()[(first + k) % 26],
{
    letter_char((first + k) % 26)
}

/// A random English word to search the catalog with. The first letter is
/// drawn at random; when no word starts with it, the following letters are
/// tried in turn, so the search ends after at most one round of the alphabet.
/// A word found is never empty and starts with a lower-case letter.
pub fn random_word() -> (r: Option<String>)
    ensures
        r matches Some(w) ==> w@.len() > 0 && exists|i: int| 0 <= i < 26 && w@[0] == alphabet()[i],
{
    let first = get_random_song_index(26);
    let mut k: u64 = 0;
    while k < 26
        invariant
            first < 26,
        decreases 26 - k,
    {
        let letter = letter_to_try(first, k);
        match word_starting_with(letter) {
            Some(w) => {
                return Some(w);
            },
            None => {},
        }
        k = k + 1;
    }
    None
}

/// The search query aimed at `field` (artist, track, album) for the two
/// letters at `letter1` and `letter2` of the alphabet, quoted.
pub fn query_from(letter1: u64, letter2: u64, field: u64) -> (r: String)
    requires
        letter1 < 26,
        letter2 < 26,
        field < 3,
    ensures
        r@ == field_prefix(field) + "\""@ + seq![alphabet()[letter1 as int], alphabet()[letter2 as int]] + "\""@,
{
    let mut s = if field == 0 {
        String::from_str("artist:")
    } else if field == 1 {
        String::from_str("track:")
    } else {
        String::from_str("album:")
    };
    s.append("\"");
    s.append(letter_str(letter1));
    s.append(letter_str(letter2));
    s.append("\"");
    assert(s@ =~= field_prefix(field) + "\""@ + seq![alphabet()[letter1 as int], alphabet()[letter2 as int]] + "\""@);
    s
}

/// A random two-letter search query aimed at a random field.
pub fn get_random_query() -> (r: String)
    ensures
        exists|l1: u64, l2: u64, f: u64| l1 < 26 && l2 < 26 && f < 3 && r@ == field_prefix(f) + "\""@
            + seq![alphabet()[l1 as int], alphabet()[l2 as int]] + "\""@,
{
    let letter1 = get_random_song_index(26);
    let letter2 = get_random_song_index(26);
    let field = get_random_song_index(3);
    query_from(letter1, letter2, field)
}

} // verus!
