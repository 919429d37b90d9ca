use vstd::prelude::*;
use crate::deezer::Track;
use crate::dictionary::Word;

verus! {

/// A new asset record, before the system of record gives it an id and a
/// creation time.
#[derive(Clone, Debug)]
pub struct MashupAssetsInsert {
    pub track1: TrackAsset,
    pub track2: TrackAsset,
    pub mashed_track: MashedTrackAsset,
}

/// An asset record as the system of record holds it.
#[derive(Clone, Debug)]
pub struct MashupAssets {
    pub id: i8,
    pub created_at: String,
    pub track1: TrackAsset,
    pub track2: TrackAsset,
    pub mashed_track: MashedTrackAsset,
}

/// A chosen track, decorated for the asset record.
#[derive(Clone, Debug)]
pub struct TrackAsset {
    pub id: u64,
    pub title: String,
    pub full_title: String,
    pub artist: String,
    pub preview: String,
    pub album_title: String,
    pub cover_url: String,
    pub origin: TrackOrigin,
}

impl TrackAsset {
    /// The asset of `track`, with its encoded `preview` and where it was found.
    pub fn from_track(track: Track, preview: String, origin: TrackOrigin) -> (r: Self)
        ensures
            r.id == track.id,
            r.title == track.title,
            r.full_title == track.full_title,
            r.artist == track.artist.name,
            r.preview == preview,
            r.album_title == track.album.title,
            r.cover_url == track.album.cover_url,
            r.origin == origin,
    {
        Self {
            id: track.id,
            title: track.title,
            full_title: track.full_title,
            artist: track.artist.name,
            preview,
            album_title: track.album.title,
            cover_url: track.album.cover_url,
            origin,
        }
    }
}

/// Where a track was found: the query word, the size of the search result,
/// and the true index of the track in it.
#[derive(Clone, Debug)]
pub struct TrackOrigin {
    pub word: Word,
    pub total_tracks: u64,
    pub track_index: u64,
}

/// The combination derived from two tracks.
#[derive(Clone, Debug)]
pub struct MashedTrackAsset {
    pub title: String,
    pub artist: String,
    pub album_title: String,
}

} // verus!
