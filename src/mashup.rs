use vstd::prelude::*;
use vstd::utf8::encode_utf8;
use crate::models::{MashedTrackAsset, TrackAsset};
use crate::text::join;

verus! {

/// A combined text stops after the word that takes it past this many bytes.
pub const LENGTH_LIMIT: usize = 30;

/// Relies on rand's `random`: a value drawn from the thread-local generator.
/// Nothing is promised of which value.
pub assume_specification<T>[ rand::random::<T> ]() -> (r: T)
    where
        rand::distributions::Standard: rand::distributions::Distribution<T>,
;

/// The words of a text, as `str::split_whitespace` cuts them.
pub uninterp spec fn words_of(s: Seq<char>) -> Seq<Seq<char>>;

/// The texts of the strings, in order.
pub open spec fn str_views(v: Seq<String>) -> Seq<Seq<char>> {
    v.map_values(|w: String| w@)
}

/// Relies on `str::split_whitespace`: the words of `s`, in order.
#[verifier::external_body]
fn split_words(s: &str) -> (r: Vec<String>)
    ensures
        str_views(r@) == words_of(s@),
{
    s.split_whitespace().map(String::from).collect()
}

/// The length of a text in bytes, as UTF-8, as `str::len` reports it.
pub open spec fn byte_len(w: Seq<char>) -> nat {
    (encode_utf8(w).len() as usize) as nat
}

/// The words taken from position `i` on, one from `a` then one from `b`
/// at each position, when `used` bytes were taken before; taking stops right
/// after the word that takes the total past the limit.
pub open spec fn alternate(a: Seq<Seq<char>>, b: Seq<Seq<char>>, i: nat, used: nat) -> Seq<Seq<char>>
    decreases (if a.len() > b.len() { a.len() } else { b.len() }) - i,
{
    if i >= a.len() && i >= b.len() {
        Seq::empty()
    } else {
        let took_a: Seq<Seq<char>> = if i < a.len() { seq![a[i as int]] } else { Seq::empty() };
        let used_a: nat = if i < a.len() { used + byte_len(a[i as int]) } else { used };
        if used_a > LENGTH_LIMIT {
            took_a
        } else {
            let took_b: Seq<Seq<char>> = if i < b.len() { seq![b[i as int]] } else { Seq::empty() };
            let used_b: nat = if i < b.len() { used_a + byte_len(b[i as int]) } else { used_a };
            if used_b > LENGTH_LIMIT {
                took_a + took_b
            } else {
                took_a + took_b + alternate(a, b, i + 1, used_b)
            }
        }
    }
}

/// The words of `lead` and `other` taken in turn, `lead` first, joined by
/// single spaces, up to the length limit.
pub open spec fn combined_words(lead: Seq<char>, other: Seq<char>) -> Seq<char> {
    join(alternate(words_of(lead), words_of(other), 0, 0), " "@)
}

/// The strings joined with `sep` between each two.
pub fn join_words(words: &Vec<String>, sep: &str) -> (r: String)
    ensures
        r@ == join(str_views(words@), sep@),
{
    let mut out = String::new();
    let mut i: usize = 0;
    while i < words.len()
        invariant
            i <= words@.len(),
            out@ == join(str_views(words@.subrange(0, i as int)), sep@),
        decreases words@.len() - i,
    {
        let ghost prev = str_views(words@.subrange(0, i as int));
        if i > 0 {
            out.append(sep);
        }
        out.append(words[i].as_str());
        proof {
            let next = str_views(words@.subrange(0, i + 1));
            assert(next =~= prev.push(words@[i as int]@));
            assert(next.drop_last() =~= prev);
            if i == 0 {
                assert(join(prev, sep@) =~= Seq::<char>::empty());
                assert(out@ =~= join(next, sep@));
            } else {
                assert(out@ =~= join(next, sep@));
            }
        }
        i = i + 1;
    }
    proof {
        assert(words@.subrange(0, i as int) =~= words@);
    }
    out
}

/// Takes the word at `i` of `words`, if any, and counts its bytes against the
/// limit; says whether the limit is now passed.
fn take_word(words: &Vec<String>, i: usize, taken: &mut Vec<String>, used: &mut usize) -> (passed: bool)
    requires
        *old(used) <= LENGTH_LIMIT,
    ensures
        i < words@.len() ==> str_views(final(taken)@) == str_views(old(taken)@).push(words@[i as int]@),
        i >= words@.len() ==> final(taken)@ == old(taken)@,
        passed == (i < words@.len() && *old(used) + byte_len(words@[i as int]@) > LENGTH_LIMIT),
        !passed ==> *final(used) == *old(used) + if i < words@.len() { byte_len(words@[i as int]@) } else { 0 },
        !passed ==> *final(used) <= LENGTH_LIMIT,
        passed ==> *final(used) == *old(used),
{
    if i < words.len() {
        let wl = words[i].as_str().len();
        let w = words[i].clone();
        let ghost before = taken@;
        taken.push(w);
        assert(str_views(taken@) =~= str_views(before).push(words@[i as int]@));
        if wl > LENGTH_LIMIT - *used {
            true
        } else {
            *used = *used + wl;
            false
        }
    } else {
        false
    }
}

/// The words of `words1` and `words2` taken in turn, `words1` first, joined
/// by single spaces, stopping after the word that passes the length limit.
pub fn combine_words(words1: &Vec<String>, words2: &Vec<String>) -> (r: String)
    ensures
        r@ == join(alternate(str_views(words1@), str_views(words2@), 0, 0), " "@),
{
    let ghost a = str_views(words1@);
    let ghost b = str_views(words2@);
    let len: usize = if words1.len() > words2.len() { words1.len() } else { words2.len() };
    let mut taken: Vec<String> = Vec::new();
    let mut used: usize = 0;
    let mut i: usize = 0;
    let mut done = false;
    assert(str_views(taken@) + alternate(a, b, 0, 0) =~= alternate(a, b, 0, 0));
    while i < len && !done
        invariant
            a == str_views(words1@),
            b == str_views(words2@),
            len == if a.len() > b.len() { a.len() } else { b.len() },
            i <= len,
            used <= LENGTH_LIMIT,
            !done ==> str_views(taken@) + alternate(a, b, i as nat, used as nat) == alternate(a, b, 0, 0),
            done ==> str_views(taken@) == alternate(a, b, 0, 0),
        decreases len - i,
    {
        let ghost t0 = str_views(taken@);
        let ghost u0 = used as nat;
        let passed_a = take_word(&words1, i, &mut taken, &mut used);
        if passed_a {
            done = true;
            assert(str_views(taken@) =~= t0 + alternate(a, b, i as nat, u0));
        } else {
            let ghost t1 = str_views(taken@);
            let passed_b = take_word(&words2, i, &mut taken, &mut used);
            if passed_b {
                done = true;
                assert(str_views(taken@) =~= t0 + alternate(a, b, i as nat, u0));
            } else {
                assert(alternate(a, b, i as nat, u0) == (if i < a.len() { seq![a[i as int]] } else { Seq::<Seq<char>>::empty() }) + (if i < b.len() { seq![b[i as int]] } else { Seq::<Seq<char>>::empty() }) + alternate(a, b, (i + 1) as nat, used as nat));
                assert(str_views(taken@) + alternate(a, b, (i + 1) as nat, used as nat) =~= t0 + alternate(a, b, i as nat, u0));
            }
        }
        i = i + 1;
    }
    if !done {
        assert(alternate(a, b, i as nat, used as nat) =~= Seq::<Seq<char>>::empty());
        assert(str_views(taken@) =~= alternate(a, b, 0, 0));
    }
    proof {
        reveal_strlit(" ");
    }
    join_words(&taken, " ")
}

/// The words of `string1` and `string2` taken in turn and joined by spaces,
/// stopping after the word that passes the length limit; `first_leads`
/// says which text gives the first word.
pub fn combine_alternating_words(string1: &str, string2: &str, first_leads: bool) -> (r: String)
    ensures
        r@ == if first_leads {
            combined_words(string1@, string2@)
        } else {
            combined_words(string2@, string1@)
        },
{
    let (lead, other) = if first_leads { (string1, string2) } else { (string2, string1) };
    let words1 = split_words(lead);
    let words2 = split_words(other);
    combine_words(&words1, &words2)
}

/// The combination of two tracks: title, artist and album title each
/// combined word by word, the leading track drawn at random for each.
pub fn mash_track_assets(track1: &TrackAsset, track2: &TrackAsset) -> (r: MashedTrackAsset)
    ensures
        r.title@ == combined_words(track1.title@, track2.title@) || r.title@ == combined_words(
            track2.title@,
            track1.title@,
        ),
        r.artist@ == combined_words(track1.artist@, track2.artist@) || r.artist@ == combined_words(
            track2.artist@,
            track1.artist@,
        ),
        r.album_title@ == combined_words(track1.album_title@, track2.album_title@)
            || r.album_title@ == combined_words(track2.album_title@, track1.album_title@),
{
    let title = combine_alternating_words(track1.title.as_str(), track2.title.as_str(), rand::random::<bool>());
    let artist = combine_alternating_words(track1.artist.as_str(), track2.artist.as_str(), rand::random::<bool>());
    let album_title = combine_alternating_words(
        track1.album_title.as_str(),
        track2.album_title.as_str(),
        rand::random::<bool>(),
    );
    MashedTrackAsset { title, artist, album_title }
}

} // verus!
