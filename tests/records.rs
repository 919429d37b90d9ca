use mashup_hour::cover::{block_extent, block_from_first};
use mashup_hour::deezer::{Album, Artist, Track};
use mashup_hour::dictionary::{dictionary_url, lookup_dictionary_entry, Word};
use mashup_hour::mashup::{combine_alternating_words, combine_words, join_words, mash_track_assets};
use mashup_hour::models::{MashedTrackAsset, MashupAssets, TrackAsset, TrackOrigin};
use mashup_hour::query::{get_random_query, letter_to_try, query_from, random_word};
use mashup_hour::supabase::{OrderDirection, SupabaseClient};
use mashup_hour::text::decimal_string;
use mashup_hour::window::{get_delete_criteria, TRACK_LIMIT};
use mashup_hour::Error;

fn asset(title: &str, artist: &str, album: &str) -> TrackAsset {
    TrackAsset {
        id: 1,
        title: title.to_string(),
        full_title: title.to_string(),
        artist: artist.to_string(),
        preview: String::new(),
        album_title: album.to_string(),
        cover_url: String::new(),
        origin: TrackOrigin { word: Word::unknown("moon".to_string()), total_tracks: 10, track_index: 4 },
    }
}

fn record(id: i8) -> MashupAssets {
    let t = asset("a", "b", "c");
    MashupAssets {
        id,
        created_at: "2024-01-01T00:00:00".to_string(),
        track1: t.clone(),
        track2: t,
        mashed_track: MashedTrackAsset { title: "a".into(), artist: "b".into(), album_title: "c".into() },
    }
}

#[test]
fn decimal_text() {
    assert_eq!(decimal_string(0), "0");
    assert_eq!(decimal_string(907), "907");
    assert_eq!(decimal_string(u64::MAX), "18446744073709551615");
}

#[test]
fn delete_criteria_lists_window_ids() {
    assert_eq!(get_delete_criteria(&vec![record(7), record(6), record(-3)]), "id=not.in.(7,6,-3)");
    assert_eq!(get_delete_criteria(&vec![record(12)]), "id=not.in.(12)");
    assert_eq!(get_delete_criteria(&Vec::new()), "id=not.in.()");
    assert_eq!(TRACK_LIMIT, 3);
}

#[test]
fn combine_alternates_words() {
    assert_eq!(combine_alternating_words("Hey Jude", "Let It Be", true), "Hey Let Jude It Be");
    assert_eq!(combine_alternating_words("Hey Jude", "Let It Be", false), "Let Hey It Jude Be");
    assert_eq!(combine_alternating_words("  one   two ", "", true), "one two");
    assert_eq!(combine_alternating_words("", "", true), "");
}

#[test]
fn combine_stops_after_word_past_limit() {
    // 10 + 10 + 10 bytes reach 30; the fourth word passes the limit and is the last
    let a = "aaaaaaaaaa cccccccccc eeeee ggg";
    let b = "bbbbbbbbbb dddddddddd fff hhh";
    assert_eq!(combine_alternating_words(a, b, true), "aaaaaaaaaa bbbbbbbbbb cccccccccc dddddddddd");
}

#[test]
fn mash_uses_either_order() {
    let t1 = asset("Hey Jude", "The Beatles", "Past Masters");
    let t2 = asset("Let It Be", "Aretha Franklin", "Young Gifted");
    for _ in 0..20 {
        let m = mash_track_assets(&t1, &t2);
        assert!(m.title == "Hey Let Jude It Be" || m.title == "Let Hey It Jude Be");
        assert!(m.artist == "The Aretha Beatles Franklin" || m.artist == "Aretha The Franklin Beatles");
        assert!(m.album_title == "Past Young Masters Gifted" || m.album_title == "Young Past Gifted Masters");
    }
}

#[test]
fn join_with_separator() {
    let words = vec!["a".to_string(), "bc".to_string(), "d".to_string()];
    assert_eq!(join_words(&words, ","), "a,bc,d");
    assert_eq!(join_words(&Vec::new(), ","), "");
}

#[test]
fn dictionary_entry_falls_back_to_placeholder() {
    let found = Word { word: "moon".into(), origin: Some("Old English".into()), meanings: None };
    let picked = lookup_dictionary_entry("moon", Ok(vec![found]));
    assert_eq!(picked.origin.as_deref(), Some("Old English"));
    let empty = lookup_dictionary_entry("moon", Ok(Vec::new()));
    assert_eq!(empty.word, "moon");
    assert!(empty.origin.is_none() && empty.meanings.is_none());
    let failed = lookup_dictionary_entry("moon", Err(Error::TransportError("refused".into())));
    assert_eq!(failed.word, "moon");
    assert!(failed.origin.is_none());
    assert_eq!(dictionary_url("moon"), "https://api.dictionaryapi.dev/api/v2/entries/en/moon");
}

#[test]
fn track_asset_from_track() {
    let track = Track {
        id: 99,
        title: "Moon".into(),
        full_title: "Moon (Live)".into(),
        preview_url: "https://p/m.mp3".into(),
        artist: Artist { name: "Lune".into() },
        album: Album { title: "Night".into(), cover_url: "https://c/n.jpg".into() },
    };
    let origin = TrackOrigin { word: Word::unknown("moon".into()), total_tracks: 120, track_index: 78 };
    let a = TrackAsset::from_track(track, "bW9vbg==".into(), origin);
    assert_eq!(a.id, 99);
    assert_eq!(a.title, "Moon");
    assert_eq!(a.full_title, "Moon (Live)");
    assert_eq!(a.artist, "Lune");
    assert_eq!(a.preview, "bW9vbg==");
    assert_eq!(a.album_title, "Night");
    assert_eq!(a.cover_url, "https://c/n.jpg");
    assert_eq!(a.origin.track_index, 78);
}

#[test]
fn select_and_delete_urls() {
    let client = SupabaseClient::with_config("https://db.example.co/rest/v1".into(), "SECRET-REDACTED".into());
    assert_eq!(client.key(), "SECRET-REDACTED");
    let table = client.from("mashup_assets");
    assert_eq!(table.table_url(), "https://db.example.co/rest/v1/mashup_assets");
    let select = table.select().order("createdAt", OrderDirection::DESC).limit(3);
    assert_eq!(
        select.request_url(),
        "https://db.example.co/rest/v1/mashup_assets?select=*&order=createdAt.desc&limit=3"
    );
    let table = SupabaseClient::with_config("https://db.example.co/rest/v1".into(), "k".into()).from("mashup_assets");
    assert_eq!(table.select().request_url(), "https://db.example.co/rest/v1/mashup_assets?select=*");
    let table = SupabaseClient::with_config("https://db.example.co/rest/v1".into(), "k".into()).from("mashup_assets");
    let delete = table.delete().notin("id", vec!["7".into(), "6".into(), "5".into()]);
    assert_eq!(delete.request_url(), "https://db.example.co/rest/v1/mashup_assets?id=not.in.(7,6,5)");
    let table = SupabaseClient::with_config("https://db.example.co/rest/v1".into(), "k".into()).from("mashup_assets");
    assert_eq!(table.delete().request_url(), "https://db.example.co/rest/v1/mashup_assets");
    let table = SupabaseClient::with_config("https://db.example.co/rest/v1".into(), "k".into()).from("mashup_assets");
    let insert = table.insert(7u8);
    assert_eq!(insert.rows, vec![7u8]);
    assert_eq!(insert.request_url(), "https://db.example.co/rest/v1/mashup_assets");
    assert_eq!(OrderDirection::DESC.as_str(), "desc");
}

#[test]
fn queries() {
    assert_eq!(query_from(0, 25, 0), "artist:\"az\"");
    assert_eq!(query_from(12, 14, 1), "track:\"mo\"");
    assert_eq!(query_from(1, 2, 2), "album:\"bc\"");
    let q = get_random_query();
    assert!(q.starts_with("artist:\"") || q.starts_with("track:\"") || q.starts_with("album:\""));
    assert!(q.ends_with('"'));
    for _ in 0..20 {
        let w = random_word().expect("a word");
        assert!(w.chars().next().map_or(false, |c| c.is_ascii_lowercase()));
    }
    assert_eq!(letter_to_try(0, 0), 'a');
    assert_eq!(letter_to_try(24, 3), 'b');
    assert_eq!(letter_to_try(12, 13), 'z');
}

#[test]
fn checkerboard_blocks() {
    assert!(block_from_first(0, 0, 10, 10));
    assert!(!block_from_first(10, 0, 10, 10));
    assert!(!block_from_first(0, 15, 10, 10));
    assert!(block_from_first(0, 25, 10, 10));
    assert!(block_from_first(15, 12, 10, 10));
    assert_eq!(block_extent(0, 10, 25), 10);
    assert_eq!(block_extent(20, 10, 25), 5);
}

#[test]
fn error_constructors() {
    assert_eq!(Error::custom("boom"), Error::Custom("boom".into()));
    assert!(Error::critical("x").is_critical());
    assert!(!Error::custom("x").is_critical());
}

#[test]
fn combine_given_words() {
    let w = |v: &[&str]| v.iter().map(|s| s.to_string()).collect::<Vec<String>>();
    assert_eq!(combine_words(&w(&["Hey", "Jude"]), &w(&["Let", "It", "Be"])), "Hey Let Jude It Be");
    assert_eq!(combine_words(&w(&[]), &w(&["solo"])), "solo");
    assert_eq!(
        combine_words(&w(&["aaaaaaaaaaaaaaaaaaaaaaaaaaaaaaa", "x"]), &w(&["y"])),
        "aaaaaaaaaaaaaaaaaaaaaaaaaaaaaaa"
    );
    // 29 bytes in 24 characters: "y" reaches 30, "x" passes the limit and is the last
    assert_eq!(
        combine_words(&w(&["caf\u{e9}caf\u{e9}caf\u{e9}caf\u{e9}caf\u{e9}cafe", "x"]), &w(&["y", "z"])),
        "caf\u{e9}caf\u{e9}caf\u{e9}caf\u{e9}caf\u{e9}cafe y x"
    );
}
