use mashup_hour::deezer::{
    encode_preview, find_track_url, get_pagination_url, search_tracks_url, Album, Artist,
    DeezerPaginationResponse, Track, DEEZER_PAGE_LIMIT,
};
use mashup_hour::pagination::{APIResult, ContentType, Pagination};
use mashup_hour::sampler::{find_index_with_preview, get_random_song_index, scan_page, PageScan};
use mashup_hour::Error;

fn track(id: u64, preview: &str) -> Track {
    Track {
        id,
        title: format!("t{id}"),
        full_title: format!("Track {id}"),
        preview_url: preview.to_string(),
        artist: Artist { name: "a".to_string() },
        album: Album { title: "al".to_string(), cover_url: "c".to_string() },
    }
}

fn page(first_id: u64, len: u64, usable: &[u64]) -> Vec<Track> {
    (first_id..first_id + len)
        .map(|id| if usable.contains(&id) { track(id, "https://p/x.mp3") } else { track(id, "") })
        .collect()
}

#[test]
fn sampled_57_falls_through_to_next_page() {
    let total = 100;
    let limit = 25;
    let index = 57;
    assert_eq!(index / limit, 2);
    assert_eq!(index % limit, 7);
    // page 2 holds entries 50..75; entries 57..74 are all unusable
    let page2 = page(50, 25, &[51, 55]);
    let next = match scan_page(index, total, limit, &page2).unwrap() {
        PageScan::Exhausted { next_index } => next_index,
        other => panic!("expected to move on, got {:?}", other),
    };
    assert_eq!(next, 75);
    // page 3 holds entries 75..100; the first usable one is entry 78
    let page3 = page(75, 25, &[78, 90]);
    match scan_page(next, total, limit, &page3).unwrap() {
        PageScan::Found { absolute_index, position } => {
            assert_eq!(absolute_index, 78);
            assert_eq!(position, 3);
            assert_eq!(page3[position].id, 78);
        }
        other => panic!("expected a track, got {:?}", other),
    }
}

#[test]
fn found_index_is_corrected_past_skipped_entries() {
    let page2 = page(50, 25, &[60]);
    assert_eq!(
        scan_page(57, 100, 25, &page2).unwrap(),
        PageScan::Found { absolute_index: 60, position: 10 }
    );
}

#[test]
fn scanned_index_stays_below_total() {
    for index in 0..30u64 {
        let base = index - index % 7;
        let len = (30 - base).min(7);
        let entries = page(base, len, &[base + len - 1]);
        match scan_page(index, 30, 7, &entries) {
            Ok(PageScan::Found { absolute_index, .. }) => assert!(index <= absolute_index && absolute_index < 30),
            Ok(PageScan::Exhausted { next_index }) => assert!(next_index < 30),
            Err(e) => panic!("unexpected error {:?}", e),
        }
    }
}

#[test]
fn last_page_without_usable_entry_is_critical() {
    let last = page(75, 25, &[]);
    assert!(matches!(scan_page(80, 100, 25, &last), Err(Error::CriticalError(_))));
}

#[test]
fn offset_past_page_end_is_index_error() {
    let short = page(50, 5, &[50]);
    assert_eq!(
        scan_page(57, 100, 25, &short),
        Err(Error::IndexError { index: 7, length: 5 })
    );
}

#[test]
fn page_longer_than_collection_is_index_error() {
    let long = page(0, 10, &[8]);
    assert_eq!(scan_page(2, 5, 25, &long), Err(Error::IndexError { index: 8, length: 10 }));
}

#[test]
fn find_index_with_preview_cases() {
    let entries = page(0, 5, &[3]);
    assert_eq!(find_index_with_preview(&entries, &1), Ok(2));
    assert_eq!(find_index_with_preview(&entries, &3), Ok(0));
    assert!(matches!(find_index_with_preview(&entries, &4), Err(Error::CriticalError(_))));
    assert_eq!(
        find_index_with_preview(&entries, &5),
        Err(Error::IndexError { index: 5, length: 5 })
    );
}

#[test]
fn random_index_below_total() {
    for _ in 0..200 {
        assert!(get_random_song_index(3) < 3);
    }
    assert_eq!(get_random_song_index(1), 0);
}

#[test]
fn pagination_urls() {
    let url = "https://api.deezer.com/search/track?q=moon";
    assert_eq!(get_pagination_url(url, &57), format!("{url}&index=2"));
    assert_eq!(get_pagination_url(url, &0), format!("{url}&index=0"));
    let result = APIResult {
        url: url.to_string(),
        response: DeezerPaginationResponse { data: Vec::<Track>::new(), next: None, total: 100 },
    };
    assert_eq!(result.response.page_limit(), DEEZER_PAGE_LIMIT);
    assert_eq!(result.page_url_for_index(260), format!("{url}&index=10"));
    assert_eq!(result.response.get_pagination_url(url, &3), format!("{url}&index=3"));
    assert!(result.response.next().is_none());
}

#[test]
fn catalog_urls() {
    assert_eq!(search_tracks_url("moon"), "https://api.deezer.com/search/track?q=moon");
    assert_eq!(find_track_url(&3135556), "https://api.deezer.com/track/3135556");
    assert_eq!(ContentType::JSON.as_str(), "application/json");
}

#[test]
fn preview_is_base64() {
    assert_eq!(encode_preview(&b"hello world~".to_vec()), "aGVsbG8gd29ybGR+");
    assert_eq!(encode_preview(&b"ab".to_vec()), "YWI=");
    assert_eq!(encode_preview(&Vec::new()), "");
}
