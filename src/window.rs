use vstd::prelude::*;
use crate::models::MashupAssets;
use crate::text::{join, push_signed_decimal, signed_decimal};

verus! {

/// The number of asset records the window retains.
pub const TRACK_LIMIT: u64 = 3;

/// The ids of the records, as decimal text, in order.
pub open spec fn id_texts(assets: Seq<MashupAssets>) -> Seq<Seq<char>> {
    assets.map_values(|a: MashupAssets| signed_decimal(a.id as int))
}

/// The filter that selects every record whose id is not among `assets`.
pub open spec fn delete_criteria(assets: Seq<MashupAssets>) -> Seq<char> {
    "id=not.in.("@ + join(id_texts(assets), ","@) + ")"@
}

/// The filter that selects, for deletion, every record outside `assets`.
pub fn get_delete_criteria(assets: &Vec<MashupAssets>) -> (r: String)
    ensures
        r@ == delete_criteria(assets@),
{
    let mut criteria = String::from_str("id=not.in.(");
    let ghost head = criteria@;
    let mut i: usize = 0;
    while i < assets.len()
        invariant
            i <= assets@.len(),
            head == "id=not.in.("@,
            criteria@ == head + join(id_texts(assets@.subrange(0, i as int)), ","@),
        decreases assets@.len() - i,
    {
        let ghost before = criteria@;
        let ghost prev = id_texts(assets@.subrange(0, i as int));
        if i > 0 {
            criteria.append(",");
        }
        push_signed_decimal(&mut criteria, assets[i].id as i64);
        proof {
            let next = id_texts(assets@.subrange(0, i + 1));
            assert(next =~= prev.push(signed_decimal(assets@[i as int].id as int)));
            assert(next.drop_last() =~= prev);
            if i == 0 {
                assert(prev =~= Seq::<Seq<char>>::empty());
                assert(join(next, ","@) == next[0]);
                assert(criteria@ =~= head + join(next, ","@));
            } else {
                assert(criteria@ =~= head + join(next, ","@));
            }
        }
        i = i + 1;
    }
    proof {
        assert(assets@.subrange(0, i as int) =~= assets@);
    }
    criteria.append(")");
    criteria
}

/// The ids of the records.
pub open spec fn ids_of(rows: Seq<MashupAssets>) -> Set<i8> {
    Set::new(|id: i8| exists|i: int| 0 <= i < rows.len() && rows[i].id == id)
}

/// The records left after deleting every record whose id is not in `keep`.
pub open spec fn prune(rows: Seq<MashupAssets>, keep: Set<i8>) -> Seq<MashupAssets> {
    rows.filter(|r: MashupAssets| keep.contains(r.id))
}

/// No two records share an id.
pub open spec fn unique_ids(rows: Seq<MashupAssets>) -> bool {
    forall|i: int, j: int| 0 <= i < rows.len() && 0 <= j < rows.len() && rows[i].id == rows[j].id ==> i == j
}

/// `a` sorts before `b` as text; creation times are ISO-8601 text, which
/// sorts in time order.
pub open spec fn text_before(a: Seq<char>, b: Seq<char>) -> bool
    decreases a.len(),
{
    if a.len() == 0 {
        b.len() > 0
    } else if b.len() == 0 {
        false
    } else if a[0] != b[0] {
        (a[0] as u32) < (b[0] as u32)
    } else {
        text_before(a.drop_first(), b.drop_first())
    }
}

/// `window` is the `k` most recently created of `rows` (all of them when
/// there are fewer): taken from `rows`, without repeats, and no record left
/// out is newer than one taken.
pub open spec fn is_recent_window(window: Seq<MashupAssets>, rows: Seq<MashupAssets>, k: nat) -> bool {
    &&& window.len() == if rows.len() < k { rows.len() } else { k }
    &&& window.no_duplicates()
    &&& forall|i: int| 0 <= i < window.len() ==> rows.contains(#[trigger] window[i])
    &&& forall|r: MashupAssets, w: MashupAssets|
        rows.contains(r) && !window.contains(r) && window.contains(w) ==> !text_before(
            w.created_at@,
            r.created_at@,
        )
}

proof fn lemma_pruned_from_rows(rows: Seq<MashupAssets>, keep: Set<i8>, x: MashupAssets)
    requires
        prune(rows, keep).contains(x),
    ensures
        rows.contains(x),
        keep.contains(x.id),
    decreases rows.len(),
{
    reveal(Seq::filter);
    let pred = |r: MashupAssets| keep.contains(r.id);
    let j = choose|j: int| 0 <= j < prune(rows, keep).len() && prune(rows, keep)[j] == x;
    rows.lemma_filter_pred(pred, j);
    if rows.len() > 0 && x != rows.last() {
        let rest = rows.drop_last();
        assert(prune(rest, keep) == rest.filter(pred));
        if pred(rows.last()) {
            assert(rows.filter(pred) == rest.filter(pred).push(rows.last()));
            assert(rest.filter(pred).contains(x)) by {
                assert(j < rest.filter(pred).len());
                assert(rest.filter(pred)[j] == x);
            }
        } else {
            assert(rows.filter(pred) == rest.filter(pred));
        }
        lemma_pruned_from_rows(rest, keep, x);
        let k = choose|k: int| 0 <= k < rest.len() && rest[k] == x;
        assert(rows[k] == x);
    } else if rows.len() > 0 {
        assert(rows[rows.len() - 1] == x);
    }
}

/// After the window is re-selected and every record outside its ids is
/// deleted, the system of record holds exactly the window's records: the
/// `k` most recently created, and no others.
pub proof fn lemma_window_invariant(rows: Seq<MashupAssets>, window: Seq<MashupAssets>, k: nat)
    requires
        unique_ids(rows),
        is_recent_window(window, rows, k),
    ensures
        prune(rows, ids_of(window)).to_set() == window.to_set(),
        window.len() == if rows.len() < k { rows.len() } else { k },
{
    let kept = prune(rows, ids_of(window));
    let keep = ids_of(window);
    let pred = |r: MashupAssets| keep.contains(r.id);
    assert forall|x: MashupAssets| kept.to_set().contains(x) implies window.to_set().contains(x) by {
        assert(kept.contains(x));
        lemma_pruned_from_rows(rows, keep, x);
        let i = choose|i: int| 0 <= i < window.len() && window[i].id == x.id;
        assert(rows.contains(window[i]));
        let a = choose|a: int| 0 <= a < rows.len() && rows[a] == x;
        let b = choose|b: int| 0 <= b < rows.len() && rows[b] == window[i];
        assert(a == b);
        assert(window.contains(x));
    }
    assert forall|x: MashupAssets| window.to_set().contains(x) implies kept.to_set().contains(x) by {
        assert(window.contains(x));
        let i = choose|i: int| 0 <= i < window.len() && window[i] == x;
        assert(rows.contains(x));
        assert(keep.contains(x.id));
        let a = choose|a: int| 0 <= a < rows.len() && rows[a] == x;
        rows.lemma_filter_contains(pred, a);
        assert(kept.contains(x));
    }
    assert(kept.to_set() =~= window.to_set());
}

/// A refresh keeps the record it just inserted: when the new record is newer
/// than every record already held, the re-selected window contains it, and
/// pruning leaves exactly that window.
pub proof fn lemma_new_record_retained(
    held: Seq<MashupAssets>,
    new_record: MashupAssets,
    window: Seq<MashupAssets>,
    k: nat,
)
    requires
        k >= 1,
        unique_ids(held.push(new_record)),
        forall|i: int| 0 <= i < held.len() ==> text_before(#[trigger] held[i].created_at@, new_record.created_at@),
        is_recent_window(window, held.push(new_record), k),
    ensures
        window.contains(new_record),
        prune(held.push(new_record), ids_of(window)).to_set() == window.to_set(),
{
    let rows = held.push(new_record);
    lemma_window_invariant(rows, window, k);
    assert(rows[held.len() as int] == new_record);
    if !window.contains(new_record) {
        assert(window.len() >= 1);
        let w = window[0];
        assert(window.contains(w));
        assert(rows.contains(w));
        let a = choose|a: int| 0 <= a < rows.len() && rows[a] == w;
        assert(a < held.len());
        assert(held[a] == w);
        assert(text_before(w.created_at@, new_record.created_at@));
        assert(rows.contains(new_record));
    }
}

} // verus!
