use vstd::prelude::*;
use crate::error::Error;
use crate::text::{decimal, push_decimal};

verus! {

/// The payload cut into consecutive slices of `max` bytes; the last slice
/// holds what is left, and an empty payload gives no slice at all.
pub open spec fn chunks_of(payload: Seq<u8>, max: nat) -> Seq<Seq<u8>>
    decreases payload.len(),
{
    if max == 0 || payload.len() == 0 {
        Seq::empty()
    } else if payload.len() <= max {
        seq![payload]
    } else {
        seq![payload.subrange(0, max as int)] + chunks_of(
            payload.subrange(max as int, payload.len() as int),
            max,
        )
    }
}

/// The slices laid end to end, in order.
pub open spec fn concat_all(chunks: Seq<Seq<u8>>) -> Seq<u8>
    decreases chunks.len(),
{
    if chunks.len() == 0 {
        Seq::empty()
    } else {
        chunks[0] + concat_all(chunks.drop_first())
    }
}

/// The byte contents of each slice, in order.
pub open spec fn byte_views(v: Seq<Vec<u8>>) -> Seq<Seq<u8>> {
    v.map_values(|c: Vec<u8>| c@)
}

/// Cutting a payload into slices and laying them end to end gives the
/// payload back, for any slice size of at least one byte.
pub proof fn lemma_reassemble_split(payload: Seq<u8>, max: nat)
    requires
        max >= 1,
    ensures
        concat_all(chunks_of(payload, max)) == payload,
    decreases payload.len(),
{
    if payload.len() == 0 {
        assert(payload =~= Seq::<u8>::empty());
    } else if payload.len() <= max {
        let c = chunks_of(payload, max);
        assert(c.drop_first() =~= Seq::<Seq<u8>>::empty());
        assert(concat_all(c.drop_first()) =~= Seq::<u8>::empty());
        assert(concat_all(c) =~= payload);
    } else {
        let rest = payload.subrange(max as int, payload.len() as int);
        lemma_reassemble_split(rest, max);
        let c = chunks_of(payload, max);
        assert(c.drop_first() =~= chunks_of(rest, max));
        assert(concat_all(c) =~= payload);
    }
}

/// Every slice holds between one and `max` bytes, every slice but the last
/// holds exactly `max`, and there are as many slices as `max`-byte blocks
/// are needed to cover the payload.
pub proof fn lemma_chunk_sizes(payload: Seq<u8>, max: nat)
    requires
        max >= 1,
    ensures
        chunks_of(payload, max).len() == (payload.len() + max - 1) / max as int,
        forall|i: int|
            0 <= i < chunks_of(payload, max).len() ==> 1 <= #[trigger] chunks_of(payload, max)[i].len() <= max,
        forall|i: int|
            0 <= i < chunks_of(payload, max).len() - 1 ==> #[trigger] chunks_of(payload, max)[i].len() == max,
    decreases payload.len(),
{
    let c = chunks_of(payload, max);
    if payload.len() == 0 {
        assert((max - 1) / max as int == 0) by (nonlinear_arith)
            requires max >= 1;
    } else if payload.len() <= max {
        assert((payload.len() + max - 1) / max as int == 1) by (nonlinear_arith)
            requires max >= 1, 1 <= payload.len() <= max;
    } else {
        let rest = payload.subrange(max as int, payload.len() as int);
        lemma_chunk_sizes(rest, max);
        let n = payload.len() as int;
        let m = max as int;
        assert((n + m - 1) / m == (n - m + m - 1) / m + 1) by (nonlinear_arith)
            requires m >= 1, n > m;
        assert forall|i: int| 0 <= i < c.len() implies 1 <= #[trigger] c[i].len() <= max by {
            if i > 0 {
                assert(c[i] == chunks_of(rest, max)[i - 1]);
            }
        }
        assert forall|i: int| 0 <= i < c.len() - 1 implies #[trigger] c[i].len() == max by {
            if i > 0 {
                assert(c[i] == chunks_of(rest, max)[i - 1]);
            }
        }
    }
}

/// Splits `s` into consecutive slices of at most `chunk_size` bytes, in order.
/// The cut points depend only on the length of `s`.
pub fn chunk_string(s: &Vec<u8>, chunk_size: usize) -> (r: Vec<Vec<u8>>)
    requires
        chunk_size >= 1,
    ensures
        byte_views(r@) == chunks_of(s@, chunk_size as nat),
{
    let mut chunks: Vec<Vec<u8>> = Vec::new();
    let mut start: usize = 0;
    let len = s.len();
    assert(s@.subrange(0, len as int) =~= s@);
    assert(byte_views(chunks@) =~= Seq::<Seq<u8>>::empty());
    while start < len
        invariant
            start <= len == s@.len(),
            chunk_size >= 1,
            byte_views(chunks@) + chunks_of(s@.subrange(start as int, len as int), chunk_size as nat)
                == chunks_of(s@, chunk_size as nat),
        decreases len - start,
    {
        let end: usize = if len - start <= chunk_size { len } else { start + chunk_size };
        let mut chunk: Vec<u8> = Vec::new();
        let mut j: usize = start;
        while j < end
            invariant
                start <= j <= end <= len == s@.len(),
                chunk@ == s@.subrange(start as int, j as int),
            decreases end - j,
        {
            chunk.push(s[j]);
            j = j + 1;
            assert(chunk@ =~= s@.subrange(start as int, j as int));
        }
        let ghost rest = s@.subrange(start as int, len as int);
        let ghost before = byte_views(chunks@);
        let ghost chunk_bytes = chunk@;
        assert(rest.subrange(0, (end - start) as int) =~= chunk@);
        assert(rest.subrange((end - start) as int, rest.len() as int) =~= s@.subrange(end as int, len as int));
        if end < len {
            assert(chunks_of(rest, chunk_size as nat) == seq![chunk@] + chunks_of(
                s@.subrange(end as int, len as int),
                chunk_size as nat,
            ));
        } else {
            assert(rest =~= chunk@);
            assert(s@.subrange(end as int, len as int) =~= Seq::<u8>::empty());
            assert(chunks_of(rest, chunk_size as nat) == seq![chunk@]);
        }
        chunks.push(chunk);
        assert(byte_views(chunks@) =~= before.push(chunk_bytes));
        assert(byte_views(chunks@) + chunks_of(s@.subrange(end as int, len as int), chunk_size as nat)
            =~= before + chunks_of(rest, chunk_size as nat));
        start = end;
    }
    assert(s@.subrange(start as int, len as int) =~= Seq::<u8>::empty());
    assert(byte_views(chunks@) + chunks_of(Seq::<u8>::empty(), chunk_size as nat) =~= byte_views(chunks@));
    chunks
}

proof fn lemma_concat_all_push(chunks: Seq<Seq<u8>>, c: Seq<u8>)
    ensures
        concat_all(chunks.push(c)) == concat_all(chunks) + c,
    decreases chunks.len(),
{
    if chunks.len() == 0 {
        assert(chunks.push(c).drop_first() =~= Seq::<Seq<u8>>::empty());
        assert(concat_all(chunks.push(c).drop_first()) =~= Seq::<u8>::empty());
        assert(concat_all(chunks.push(c)) =~= c);
    } else {
        lemma_concat_all_push(chunks.drop_first(), c);
        assert(chunks.push(c).drop_first() =~= chunks.drop_first().push(c));
        assert(concat_all(chunks.push(c)) =~= concat_all(chunks) + c);
    }
}

/// Lays the slices end to end, in order.
pub fn reassemble(chunks: &Vec<Vec<u8>>) -> (r: Vec<u8>)
    ensures
        r@ == concat_all(byte_views(chunks@)),
{
    let mut out: Vec<u8> = Vec::new();
    let mut i: usize = 0;
    while i < chunks.len()
        invariant
            i <= chunks@.len(),
            out@ == concat_all(byte_views(chunks@).subrange(0, i as int)),
        decreases chunks@.len() - i,
    {
        let ghost before = out@;
        let c = &chunks[i];
        let mut j: usize = 0;
        while j < c.len()
            invariant
                j <= c@.len(),
                out@ == before + c@.subrange(0, j as int),
            decreases c@.len() - j,
        {
            out.push(c[j]);
            j = j + 1;
            assert(out@ =~= before + c@.subrange(0, j as int));
        }
        proof {
            let dv = byte_views(chunks@);
            assert(dv.subrange(0, i + 1) =~= dv.subrange(0, i as int).push(dv[i as int]));
            lemma_concat_all_push(dv.subrange(0, i as int), dv[i as int]);
            assert(c@.subrange(0, j as int) =~= c@);
        }
        i = i + 1;
    }
    assert(byte_views(chunks@).subrange(0, i as int) =~= byte_views(chunks@));
    out
}

/// Where one value of the bundle is kept in the key-value store.
#[derive(Clone, Copy, Debug, PartialEq, Eq)]
pub enum CacheKey {
    /// The number of slices.
    TotalChunks,
    /// The slice at this position, counted from one.
    Chunk(u64),
}

/// The text of a key: `total_chunks`, or `chunk` followed by the position.
pub open spec fn key_name(k: CacheKey) -> Seq<char> {
    match k {
        CacheKey::TotalChunks => "total_chunks"@,
        CacheKey::Chunk(i) => "chunk"@ + decimal(i as nat),
    }
}

impl CacheKey {
    /// The text of this key in the store.
    pub fn name(&self) -> (r: String)
        ensures
            r@ == key_name(*self),
    {
        match self {
            CacheKey::TotalChunks => String::from_str("total_chunks"),
            CacheKey::Chunk(i) => {
                let mut s = String::from_str("chunk");
                push_decimal(&mut s, *i);
                s
            },
        }
    }
}

/// One value to put in the store, all with the same time to live.
#[derive(Clone, Debug, PartialEq, Eq)]
pub enum CacheEntry {
    /// The number of slices, kept under `total_chunks`.
    Count(u64),
    /// One slice, kept under `chunk{index}`.
    Chunk { index: u64, bytes: Vec<u8> },
}

impl CacheEntry {
    /// The key this value goes under.
    pub fn key(&self) -> (r: CacheKey)
        ensures
            r == entry_key(*self),
    {
        match self {
            CacheEntry::Count(_) => CacheKey::TotalChunks,
            CacheEntry::Chunk { index, .. } => CacheKey::Chunk(*index),
        }
    }
}

/// The key an entry goes under.
pub open spec fn entry_key(e: CacheEntry) -> CacheKey {
    match e {
        CacheEntry::Count(_) => CacheKey::TotalChunks,
        CacheEntry::Chunk { index, .. } => CacheKey::Chunk(index),
    }
}

/// What the store holds of the bundle: the slice count, if present, and the
/// slices present, by position.
pub struct StoreView {
    pub count: Option<u64>,
    pub chunks: Map<u64, Seq<u8>>,
}

/// The store after one value is set; a set overwrites.
pub open spec fn apply_entry(s: StoreView, e: CacheEntry) -> StoreView {
    match e {
        CacheEntry::Count(n) => StoreView { count: Some(n), chunks: s.chunks },
        CacheEntry::Chunk { index, bytes } => StoreView {
            count: s.count,
            chunks: s.chunks.insert(index, bytes@),
        },
    }
}

/// The store after the values are set one after the other.
pub open spec fn apply_entries(s: StoreView, es: Seq<CacheEntry>) -> StoreView
    decreases es.len(),
{
    if es.len() == 0 {
        s
    } else {
        apply_entry(apply_entries(s, es.drop_last()), es.last())
    }
}

/// The store with the slice count gone (evicted, expired or deleted).
pub open spec fn without_count(s: StoreView) -> StoreView {
    StoreView { count: None, chunks: s.chunks }
}

/// The slices `1..=n` as the store holds them, in order.
pub open spec fn stored_slices(s: StoreView, n: u64) -> Seq<Seq<u8>> {
    Seq::new(n as nat, |k: int| s.chunks[(k + 1) as u64])
}

/// What a read of the bundle finds: nothing when the count or any of the
/// slices it names is absent, else the slices laid end to end.
pub open spec fn read_bundle(s: StoreView) -> Option<Seq<u8>> {
    match s.count {
        None => None,
        Some(n) => if forall|i: u64| 1 <= i <= n ==> #[trigger] s.chunks.contains_key(i) {
            Some(concat_all(stored_slices(s, n)))
        } else {
            None
        },
    }
}

/// `es` writes the bundle of `payload`: the slices of at most `max` bytes
/// under `chunk1`, `chunk2`, ..., in order, and the slice count last.
pub open spec fn is_write_plan(es: Seq<CacheEntry>, payload: Seq<u8>, max: nat) -> bool {
    let c = chunks_of(payload, max);
    &&& es.len() == c.len() + 1
    &&& es.last() == CacheEntry::Count(c.len() as u64)
    &&& forall|i: int|
        0 <= i < c.len() ==> (#[trigger] es[i] matches CacheEntry::Chunk { index, bytes } && index
            == i + 1 && bytes@ == c[i])
}

/// The values that write the bundle of `payload` in slices of at most
/// `max_chunk_bytes` bytes, the slice count last so that no reader sees a
/// count ahead of its slices.
pub fn plan_write(payload: &Vec<u8>, max_chunk_bytes: usize) -> (r: Vec<CacheEntry>)
    requires
        max_chunk_bytes >= 1,
    ensures
        is_write_plan(r@, payload@, max_chunk_bytes as nat),
{
    let chunks = chunk_string(payload, max_chunk_bytes);
    let n = chunks.len();
    let mut entries: Vec<CacheEntry> = Vec::new();
    let mut i: usize = 0;
    while i < n
        invariant
            n == chunks@.len(),
            byte_views(chunks@) == chunks_of(payload@, max_chunk_bytes as nat),
            i <= n,
            entries@.len() == i,
            forall|k: int|
                0 <= k < i ==> (#[trigger] entries@[k] matches CacheEntry::Chunk { index, bytes }
                    && index == k + 1 && bytes@ == byte_views(chunks@)[k]),
        decreases n - i,
    {
        let bytes = chunks[i].clone();
        entries.push(CacheEntry::Chunk { index: (i + 1) as u64, bytes });
        i = i + 1;
    }
    entries.push(CacheEntry::Count(n as u64));
    entries
}

proof fn lemma_apply_plan_chunks(s: StoreView, es: Seq<CacheEntry>, payload: Seq<u8>, max: nat, j: int)
    requires
        is_write_plan(es, payload, max),
        0 <= j <= chunks_of(payload, max).len(),
    ensures
        apply_entries(s, es.subrange(0, j)).count == s.count,
        forall|i: u64|
            1 <= i <= j ==> #[trigger] apply_entries(s, es.subrange(0, j)).chunks.contains_key(i)
                && apply_entries(s, es.subrange(0, j)).chunks[i] == chunks_of(payload, max)[i - 1],
    decreases j,
{
    let c = chunks_of(payload, max);
    if j == 0 {
        assert(es.subrange(0, 0) =~= Seq::<CacheEntry>::empty());
    } else {
        lemma_apply_plan_chunks(s, es, payload, max, j - 1);
        let sub = es.subrange(0, j);
        assert(sub.drop_last() =~= es.subrange(0, j - 1));
        assert(sub.last() == es[j - 1]);
        let e = es[j - 1];
        assert(e matches CacheEntry::Chunk { index, bytes } && index == j && bytes@ == c[j - 1]);
    }
}

/// After the bundle of `payload` is written, a read finds `payload`,
/// whatever the store held before.
pub proof fn lemma_read_after_write(s: StoreView, es: Seq<CacheEntry>, payload: Seq<u8>, max: nat)
    requires
        max >= 1,
        is_write_plan(es, payload, max),
    ensures
        read_bundle(apply_entries(s, es)) == Some(payload),
{
    let c = chunks_of(payload, max);
    let n = c.len();
    lemma_apply_plan_chunks(s, es, payload, max, n as int);
    let mid = apply_entries(s, es.subrange(0, n as int));
    assert(es.drop_last() =~= es.subrange(0, n as int));
    let fin = apply_entries(s, es);
    assert(fin.count == Some(n as u64));
    assert(fin.chunks == mid.chunks);
    assert forall|i: u64| 1 <= i <= n as u64 implies #[trigger] fin.chunks.contains_key(i) by {}
    assert forall|k: int| 0 <= k < n implies #[trigger] stored_slices(fin, n as u64)[k] == c[k] by {
        let i = (k + 1) as u64;
        assert(mid.chunks.contains_key(i));
    }
    assert(stored_slices(fin, n as u64) =~= c);
    lemma_reassemble_split(payload, max);
}

/// The slices `c[0..j]` by position, counted from one.
pub open spec fn slice_map(c: Seq<Seq<u8>>, j: int) -> Map<u64, Seq<u8>> {
    Map::new(|i: u64| 1 <= i <= j, |i: u64| c[i - 1])
}

/// The store once the bundle of `payload` is written over `s`: the slice
/// count, and the slices under their positions; other keys are untouched.
pub open spec fn written_store(s: StoreView, payload: Seq<u8>, max: nat) -> StoreView {
    let c = chunks_of(payload, max);
    StoreView {
        count: Some(c.len() as u64),
        chunks: s.chunks.union_prefer_right(slice_map(c, c.len() as int)),
    }
}

proof fn lemma_apply_plan_map(s: StoreView, es: Seq<CacheEntry>, payload: Seq<u8>, max: nat, j: int)
    requires
        is_write_plan(es, payload, max),
        0 <= j <= chunks_of(payload, max).len(),
    ensures
        apply_entries(s, es.subrange(0, j)).count == s.count,
        apply_entries(s, es.subrange(0, j)).chunks == s.chunks.union_prefer_right(
            slice_map(chunks_of(payload, max), j),
        ),
    decreases j,
{
    let c = chunks_of(payload, max);
    if j == 0 {
        assert(es.subrange(0, 0) =~= Seq::<CacheEntry>::empty());
        assert(s.chunks.union_prefer_right(slice_map(c, 0)) =~= s.chunks);
    } else {
        lemma_apply_plan_map(s, es, payload, max, j - 1);
        let sub = es.subrange(0, j);
        assert(sub.drop_last() =~= es.subrange(0, j - 1));
        let e = es[j - 1];
        assert(e matches CacheEntry::Chunk { index, bytes } && index == j && bytes@ == c[j - 1]);
        assert(s.chunks.union_prefer_right(slice_map(c, j - 1)).insert(j as u64, c[j - 1])
            =~= s.chunks.union_prefer_right(slice_map(c, j)));
    }
}

/// Writing the bundle of `payload` leaves the store in one state, whatever
/// the store held under the bundle's keys before.
pub proof fn lemma_write_result(s: StoreView, es: Seq<CacheEntry>, payload: Seq<u8>, max: nat)
    requires
        is_write_plan(es, payload, max),
    ensures
        apply_entries(s, es) == written_store(s, payload, max),
{
    let n = chunks_of(payload, max).len();
    lemma_apply_plan_map(s, es, payload, max, n as int);
    assert(es.drop_last() =~= es.subrange(0, n as int));
}

/// Writing the same bundle a second time changes nothing in the store: the
/// same slice count and the same slices (only their time to live restarts).
pub proof fn lemma_second_write_unchanged(s: StoreView, es: Seq<CacheEntry>, payload: Seq<u8>, max: nat)
    requires
        is_write_plan(es, payload, max),
    ensures
        apply_entries(apply_entries(s, es), es) == apply_entries(s, es),
{
    lemma_write_result(s, es, payload, max);
    lemma_write_result(apply_entries(s, es), es, payload, max);
    let c = chunks_of(payload, max);
    let m = slice_map(c, c.len() as int);
    assert(s.chunks.union_prefer_right(m).union_prefer_right(m) =~= s.chunks.union_prefer_right(m));
}

/// Writing the same bundle twice and reading gives the collection each
/// time: after the first write and after the second.
pub proof fn lemma_write_idempotent(s: StoreView, es: Seq<CacheEntry>, payload: Seq<u8>, max: nat)
    requires
        max >= 1,
        is_write_plan(es, payload, max),
    ensures
        read_bundle(apply_entries(s, es)) == Some(payload),
        read_bundle(apply_entries(apply_entries(s, es), es)) == Some(payload),
        apply_entries(apply_entries(s, es), es) == apply_entries(s, es),
{
    lemma_second_write_unchanged(s, es, payload, max);
    lemma_read_after_write(s, es, payload, max);
    lemma_read_after_write(apply_entries(s, es), es, payload, max);
}

/// What a lookup of the bundle leads to, as a value of the model.
pub enum ReadOutcome {
    Delivered(Seq<u8>),
    RebuildRequested,
    Failed,
}

/// The read protocol: a hit is delivered; the first miss asks for one
/// rebuild; a miss after that rebuild is fatal.
pub open spec fn read_outcome(rebuilt: bool, found: Option<Seq<u8>>) -> ReadOutcome {
    match found {
        Some(p) => ReadOutcome::Delivered(p),
        None => if rebuilt {
            ReadOutcome::Failed
        } else {
            ReadOutcome::RebuildRequested
        },
    }
}

/// What the reader of the bundle asks for next.
#[derive(Debug)]
pub enum ReadStep {
    /// The serialized collection, read whole.
    Deliver(Vec<u8>),
    /// Re-materialize the collection, write its bundle, then look again.
    Rebuild,
    /// Give up: the bundle could not be read even after a rebuild.
    Fail(Error),
}

/// The outcome a step stands for.
pub open spec fn step_outcome(s: ReadStep) -> ReadOutcome {
    match s {
        ReadStep::Deliver(p) => ReadOutcome::Delivered(p@),
        ReadStep::Rebuild => ReadOutcome::RebuildRequested,
        ReadStep::Fail(_) => ReadOutcome::Failed,
    }
}

/// Drives one read of the bundle: at most one rebuild, never a loop.
pub struct BundleReader {
    rebuilt: bool,
}

impl BundleReader {
    /// Whether a rebuild has been asked for.
    pub closed spec fn has_rebuilt(&self) -> bool {
        self.rebuilt
    }

    /// A reader that has not rebuilt yet.
    pub fn new() -> (r: BundleReader)
        ensures
            !r.has_rebuilt(),
    {
        BundleReader { rebuilt: false }
    }

    /// Takes what a lookup of the bundle found and says what to do next.
    pub fn on_lookup(&mut self, found: Option<Vec<u8>>) -> (r: ReadStep)
        ensures
            step_outcome(r) == read_outcome(old(self).has_rebuilt(), match found {
                Some(v) => Some(v@),
                None => None,
            }),
            r matches ReadStep::Fail(e) ==> e matches Error::CriticalError(_),
            final(self).has_rebuilt() == (old(self).has_rebuilt() || found is None),
    {
        match found {
            Some(v) => ReadStep::Deliver(v),
            None => {
                if self.rebuilt {
                    ReadStep::Fail(Error::critical("Unable to retrieve assets from cache"))
                } else {
                    self.rebuilt = true;
                    ReadStep::Rebuild
                }
            },
        }
    }
}

/// A miss recovers: with the slice count gone, a read asks for exactly one
/// rebuild, and once the rebuilt bundle is written the next read delivers
/// it; were the count gone again before that read, the read fails.
pub proof fn lemma_miss_recovery(s: StoreView, es: Seq<CacheEntry>, payload: Seq<u8>, max: nat)
    requires
        max >= 1,
        is_write_plan(es, payload, max),
    ensures
        read_outcome(false, read_bundle(without_count(s))) == ReadOutcome::RebuildRequested,
        read_outcome(true, read_bundle(apply_entries(without_count(s), es)))
            == ReadOutcome::Delivered(payload),
        read_outcome(true, read_bundle(without_count(apply_entries(without_count(s), es))))
            == ReadOutcome::Failed,
{
    lemma_read_after_write(without_count(s), es, payload, max);
}

/// The bundle from what was looked up: the slice count, then the slices
/// `1..=count` in order. Absent when the count or any slice is absent, or
/// when the slices looked up do not match the count.
pub fn assemble_bundle(count: Option<u64>, chunks: &Vec<Option<Vec<u8>>>) -> (r: Option<Vec<u8>>)
    ensures
        r is Some <==> (count == Some(chunks@.len() as u64) && forall|i: int|
            0 <= i < chunks@.len() ==> #[trigger] chunks@[i] is Some),
        r matches Some(p) ==> p@ == concat_all(
            Seq::new(chunks@.len(), |i: int| chunks@[i]->Some_0@),
        ),
{
    match count {
        None => None,
        Some(n) => {
            if n != chunks.len() as u64 {
                return None;
            }
            let mut out: Vec<u8> = Vec::new();
            let mut i: usize = 0;
            while i < chunks.len()
                invariant
                    i <= chunks@.len(),
                    forall|k: int| 0 <= k < i ==> #[trigger] chunks@[k] is Some,
                    out@ == concat_all(
                        Seq::new(i as nat, |k: int| chunks@[k]->Some_0@),
                    ),
                decreases chunks@.len() - i,
            {
                match &chunks[i] {
                    None => {
                        return None;
                    },
                    Some(c) => {
                        let ghost before = out@;
                        let mut j: usize = 0;
                        while j < c.len()
                            invariant
                                j <= c@.len(),
                                out@ == before + c@.subrange(0, j as int),
                            decreases c@.len() - j,
                        {
                            out.push(c[j]);
                            j = j + 1;
                            assert(out@ =~= before + c@.subrange(0, j as int));
                        }
                        proof {
                            let prev = Seq::new(i as nat, |k: int| chunks@[k]->Some_0@);
                            let next = Seq::new((i + 1) as nat, |k: int| chunks@[k]->Some_0@);
                            assert(next =~= prev.push(c@));
                            lemma_concat_all_push(prev, c@);
                            assert(c@.subrange(0, j as int) =~= c@);
                        }
                    },
                }
                i = i + 1;
            }
            Some(out)
        },
    }
}

/// The address of the key-value store at `instance:port`, reached over TLS
/// as the default user with `key`.
pub fn redis_url(instance: &str, key: &str, port: &str) -> (r: String)
    ensures
        r@ == "rediss://default:"@ + key@ + "@"@ + instance@ + ":"@ + port@,
{
    let mut s = String::from_str("rediss://default:");
    s.append(key);
    s.append("@");
    s.append(instance);
    s.append(":");
    s.append(port);
    s
}

} // verus!
