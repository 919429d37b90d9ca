use vstd::prelude::*;
use rand::Rng;
use crate::deezer::{Track, TrackList};
use crate::error::{Error, Result};
use crate::retry::{retry_verdict, Verdict};

verus! {

/// An entry can be used when it has a preview to play.
pub open spec fn usable(t: Track) -> bool {
    t.preview_url@.len() > 0
}

/// The position of the first usable entry at or after `from`, or the
/// number of entries when there is none.
pub open spec fn first_usable(entries: Seq<Track>, from: int) -> int
    decreases entries.len() - from,
{
    if from >= entries.len() {
        entries.len() as int
    } else if usable(entries[from]) {
        from
    } else {
        first_usable(entries, from + 1)
    }
}

/// `first_usable` is the least usable position at or after `from`.
pub proof fn lemma_first_usable(entries: Seq<Track>, from: int)
    requires
        0 <= from <= entries.len(),
    ensures
        from <= first_usable(entries, from) <= entries.len(),
        first_usable(entries, from) < entries.len() ==> usable(entries[first_usable(entries, from)]),
        forall|j: int| from <= j < first_usable(entries, from) ==> !usable(#[trigger] entries[j]),
    decreases entries.len() - from,
{
    if from < entries.len() && !usable(entries[from]) {
        lemma_first_usable(entries, from + 1);
    }
}

fn has_preview(track: &Track) -> (r: bool)
    ensures
        r == usable(*track),
{
    !track.preview_url.as_str().is_empty()
}

/// How far past `start_index` the first track with a preview lies.
pub fn find_index_with_preview(tracks: &TrackList, start_index: &usize) -> (r: Result<usize>)
    ensures
        *start_index >= tracks@.len() ==> r == Err::<usize, Error>(
            Error::IndexError { index: *start_index, length: tracks@.len() as usize },
        ),
        *start_index < tracks@.len() && first_usable(tracks@, *start_index as int) < tracks@.len()
            ==> r == Ok::<usize, Error>((first_usable(tracks@, *start_index as int) - *start_index) as usize),
        *start_index < tracks@.len() && first_usable(tracks@, *start_index as int) == tracks@.len()
            ==> r matches Err(Error::CriticalError(_)),
{
    let len = tracks.len();
    if *start_index >= len {
        return Err(Error::IndexError { index: *start_index, length: len });
    }
    let mut i: usize = *start_index;
    while i < len
        invariant
            *start_index <= i <= len == tracks@.len(),
            first_usable(tracks@, *start_index as int) == first_usable(tracks@, i as int),
        decreases len - i,
    {
        if has_preview(&tracks[i]) {
            return Ok(i - *start_index);
        }
        i = i + 1;
    }
    Err(Error::critical("No track with preview"))
}

/// Where the scan of one page ended.
#[derive(Clone, Copy, Debug, PartialEq, Eq)]
pub enum PageScan {
    /// A usable entry: its true index in the whole collection, and its
    /// position on the page.
    Found { absolute_index: u64, position: usize },
    /// No usable entry from the sampled one to the end of the page; the scan
    /// goes on from the first entry of the next page, whose index this is.
    Exhausted { next_index: u64 },
}

/// The scan of the page that holds `index`, from `index` on, in a
/// collection of `total` entries split into pages of `page_limit`.
/// The page's entries are `page`.
pub open spec fn scan_result(index: u64, total: u64, page_limit: u64, page: Seq<Track>, r: Result<PageScan>) -> bool {
    let offset = index % page_limit;
    let base = index - offset;
    let p = first_usable(page, offset as int);
    &&& offset >= page.len() ==> r == Err::<PageScan, Error>(
        Error::IndexError { index: offset as usize, length: page.len() as usize },
    )
    &&& offset < page.len() && p < page.len() && p < total - base ==> r == Ok::<PageScan, Error>(
        PageScan::Found { absolute_index: (base + p) as u64, position: p as usize },
    )
    &&& offset < page.len() && p < page.len() && p >= total - base ==> r == Err::<PageScan, Error>(
        Error::IndexError { index: p as usize, length: page.len() as usize },
    )
    &&& offset < page.len() && p == page.len() && page_limit < total - base ==> r == Ok::<PageScan, Error>(
        PageScan::Exhausted { next_index: (base + page_limit) as u64 },
    )
    &&& offset < page.len() && p == page.len() && page_limit >= total - base ==> r matches Err(
        Error::CriticalError(_),
    )
}

/// Scans the page that holds the sampled `index` for the first usable entry
/// at or after it, and corrects the index to the entry actually found.
/// An offset past the page's end, or a page longer than the collection,
/// is bookkeeping drift and is reported, never corrected.
pub fn scan_page(index: u64, total: u64, page_limit: u64, page: &TrackList) -> (r: Result<PageScan>)
    requires
        page_limit > 0,
        index < total,
    ensures
        scan_result(index, total, page_limit, page@, r),
{
    let offset = index % page_limit;
    assert(offset <= index) by (nonlinear_arith)
        requires offset == index % page_limit, page_limit > 0;
    let base = index - offset;
    let len = page.len();
    if offset >= len as u64 {
        return Err(Error::IndexError { index: offset as usize, length: len });
    }
    let start: usize = offset as usize;
    proof {
        lemma_first_usable(page@, start as int);
    }
    match find_index_with_preview(page, &start) {
        Ok(skip) => {
            let position: usize = start + skip;
            if position as u64 >= total - base {
                Err(Error::IndexError { index: position, length: len })
            } else {
                Ok(PageScan::Found { absolute_index: base + position as u64, position })
            }
        },
        Err(_) => {
            if page_limit >= total - base {
                Err(Error::critical("no usable entry"))
            } else {
                Ok(PageScan::Exhausted { next_index: base + page_limit })
            }
        },
    }
}

/// Scanning forward from a sampled index never leaves the collection: a
/// found entry's corrected index lies in `[index, total)`, and a scan that
/// moves on does so to the start of a later page that is still inside it.
pub proof fn lemma_scan_stays_in_range(
    index: u64,
    total: u64,
    page_limit: u64,
    page: Seq<Track>,
    r: Result<PageScan>,
)
    requires
        total > 0,
        page_limit > 0,
        index < total,
        scan_result(index, total, page_limit, page, r),
    ensures
        r matches Ok(PageScan::Found { absolute_index, .. }) ==> index <= absolute_index < total,
        r matches Ok(PageScan::Exhausted { next_index }) ==> index < next_index < total
            && next_index % page_limit == 0,
{
    let offset = index % page_limit;
    let base = index - offset;
    if offset < page.len() {
        lemma_first_usable(page, offset as int);
    }
    assert(base % page_limit as int == 0) by (nonlinear_arith)
        requires base == index - index % page_limit, page_limit > 0;
    assert((base + page_limit) % page_limit as int == 0) by (nonlinear_arith)
        requires base % page_limit as int == 0, page_limit > 0;
}

/// The index recorded as a track's origin lies in `[0, total)`: the search
/// was accepted, so its total is positive, and the scan of any page from an
/// index below that total finds a track below it. Scans of later pages start
/// from an index the scan before handed on, which is below the total too.
pub proof fn lemma_origin_index_in_range(
    made: nat,
    max: nat,
    total: u64,
    index: u64,
    page_limit: u64,
    page: Seq<Track>,
    r: Result<PageScan>,
)
    requires
        retry_verdict(made, max, Some(total)) == Verdict::Accept,
        page_limit > 0,
        index < total,
        scan_result(index, total, page_limit, page, r),
    ensures
        total > 0,
        r matches Ok(PageScan::Found { absolute_index, .. }) ==> absolute_index < total,
        r matches Ok(PageScan::Exhausted { next_index }) ==> next_index < total,
{
    lemma_scan_stays_in_range(index, total, page_limit, page, r);
}

/// Relies on rand's `Rng::gen_range` on the thread-local generator: a value
/// drawn from `0..bound`. It panics on an empty range, ruled out here.
#[verifier::external_body]
fn draw_below(bound: u64) -> (r: u64)
    requires
        bound > 0,
    ensures
        r < bound,
{
    rand::thread_rng().gen_range(0..bound)
}

/// Draws the index of one entry of a collection of `total_songs` entries.
pub fn get_random_song_index(total_songs: u64) -> (r: u64)
    requires
        total_songs > 0,
    ensures
        r < total_songs,
{
    draw_below(total_songs)
}

} // verus!
