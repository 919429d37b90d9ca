use vstd::prelude::*;
use base64::Engine;
use crate::pagination::Pagination;
use crate::text::{decimal, push_decimal};

verus! {

/// The number of entries on a full page of a track search.
pub const DEEZER_PAGE_LIMIT: u64 = 25;

/// One page of a track search: the entries, the request for the next page,
/// and the size of the whole result.
pub struct DeezerPaginationResponse<T> {
    pub data: T,
    pub next: Option<String>,
    pub total: u64,
}

/// The request for the page at `page_index` of the search `url`.
pub open spec fn paged_url(url: Seq<char>, page_index: u64) -> Seq<char> {
    url + "&index="@ + decimal(page_index as nat)
}

impl<T> Pagination for DeezerPaginationResponse<T> {
    open spec fn spec_page_limit(&self) -> u64 {
        DEEZER_PAGE_LIMIT
    }

    open spec fn spec_pagination_url(&self, url: Seq<char>, page_index: u64) -> Seq<char> {
        paged_url(url, page_index)
    }

    open spec fn spec_next(&self) -> Option<String> {
        self.next
    }

    fn page_limit(&self) -> (r: u64) {
        DEEZER_PAGE_LIMIT
    }

    fn get_pagination_url(&self, url: &str, page_index: &u64) -> (r: String) {
        let mut s = url.to_string();
        s.append("&index=");
        push_decimal(&mut s, *page_index);
        s
    }

    fn next(&self) -> (r: &Option<String>) {
        &self.next
    }
}

/// The request for the page that holds the entry at `desired_index` of the
/// search `url`.
pub fn get_pagination_url(url: &str, desired_index: &u64) -> (r: String)
    ensures
        r@ == paged_url(url@, *desired_index / DEEZER_PAGE_LIMIT),
{
    let pagination_index = *desired_index / DEEZER_PAGE_LIMIT;
    let mut s = url.to_string();
    s.append("&index=");
    push_decimal(&mut s, pagination_index);
    s
}

/// A track as the catalog lists it.
#[derive(Clone, Debug)]
pub struct Track {
    pub id: u64,
    pub title: String,
    pub full_title: String,
    pub preview_url: String,
    pub artist: Artist,
    pub album: Album,
}

pub type TrackList = Vec<Track>;

/// A search hit: only what choosing among hits needs.
#[derive(Clone, Debug)]
pub struct SearchTrack {
    pub id: u64,
    pub preview_url: String,
}

#[derive(Clone, Debug)]
pub struct Album {
    pub title: String,
    pub cover_url: String,
}

#[derive(Clone, Debug)]
pub struct Artist {
    pub name: String,
}

/// The catalog's search request for `query`.
pub open spec fn search_url(query: Seq<char>) -> Seq<char> {
    "https://api.deezer.com/search/track?q="@ + query
}

/// The catalog's search request for `query`.
pub fn search_tracks_url(query: &str) -> (r: String)
    ensures
        r@ == search_url(query@),
{
    let mut s = String::from_str("https://api.deezer.com/search/track?q=");
    s.append(query);
    s
}

/// The catalog's request for the full record of the track `track_id`.
pub fn find_track_url(track_id: &u64) -> (r: String)
    ensures
        r@ == "https://api.deezer.com/track/"@ + decimal(*track_id as nat),
{
    let mut s = String::from_str("https://api.deezer.com/track/");
    push_decimal(&mut s, *track_id);
    s
}

/// The standard, padded base64 text of some bytes.
pub uninterp spec fn base64_of(bytes: Seq<u8>) -> Seq<char>;

/// Relies on base64's `STANDARD` engine `encode`: the padded encoding with
/// the standard alphabet, four characters for each started group of three
/// bytes. It panics when that length overflows, ruled out here.
#[verifier::external_body]
fn encode_standard(bytes: &[u8]) -> (r: String)
    requires
        bytes@.len() <= usize::MAX / 2,
    ensures
        r@ == base64_of(bytes@),
        r@.len() == 4 * ((bytes@.len() + 2) / 3),
{
    base64::engine::general_purpose::STANDARD.encode(bytes)
}

/// The preview audio as base64 text, ready to embed in an asset record.
pub fn encode_preview(bytes: &Vec<u8>) -> (r: String)
    requires
        bytes@.len() <= usize::MAX / 2,
    ensures
        r@ == base64_of(bytes@),
        r@.len() == 4 * ((bytes@.len() + 2) / 3),
{
    encode_standard(bytes.as_slice())
}

} // verus!
