use vstd::prelude::*;

verus! {

/// Marking an identifier seen in the store: the store is a set, so marking
/// is adding.
pub open spec fn mark_seen(store: Set<i64>, id: i64) -> Set<i64> {
    store.insert(id)
}

/// The decision for one listed identifier, given whether the store already
/// knows it: it is taken into the batch, and must be marked seen, when the
/// store does not know it and the batch does not hold it yet.
pub open spec fn admit_step(batch: Seq<i64>, id: i64, already_seen: bool) -> (bool, Seq<i64>) {
    if already_seen || batch.contains(id) {
        (false, batch)
    } else {
        (true, batch.push(id))
    }
}

/// One dedup pass over a listing against a store: each identifier in listing
/// order is looked up, then marked seen at once if it was taken. The result
/// is the batch of unseen identifiers and the store after the pass.
pub open spec fn dedup_pass(ids: Seq<i64>, store: Set<i64>) -> (Seq<i64>, Set<i64>)
    decreases ids.len(),
{
    if ids.len() == 0 {
        (seq![], store)
    } else {
        let (batch, s) = dedup_pass(ids.drop_last(), store);
        let id = ids.last();
        let (mark, next) = admit_step(batch, id, s.contains(id));
        (next, if mark { mark_seen(s, id) } else { s })
    }
}

/// Decides for one listed identifier whether it is new; if it is, it joins
/// the batch and the caller marks it seen before fetching anything for it.
pub fn take_if_unseen(batch: &mut Vec<i64>, id: i64, already_seen: bool) -> (mark: bool)
    ensures
        (mark, final(batch)@) == admit_step(old(batch)@, id, already_seen),
{
    if already_seen {
        return false;
    }
    let mut i: usize = 0;
    while i < batch.len()
        invariant
            i <= batch@.len(),
            forall|k: int| 0 <= k < i ==> batch@[k] != id,
        decreases batch@.len() - i,
    {
        if batch[i] == id {
            assert(batch@.contains(id));
            return false;
        }
        i = i + 1;
    }
    batch.push(id);
    true
}

/// Marking an identifier seen twice leaves the store as marking it once.
pub proof fn lemma_mark_seen_idempotent(store: Set<i64>, id: i64)
    ensures
        mark_seen(mark_seen(store, id), id) == mark_seen(store, id),
        mark_seen(mark_seen(store, id), id).contains(id),
{
    assert(mark_seen(mark_seen(store, id), id) =~= mark_seen(store, id));
}

/// After a dedup pass: an identifier is in the batch exactly when the listing
/// holds it and the store did not; the batch holds no identifier twice; and
/// the store has every listed identifier marked, and nothing else added.
/// Since only the batch is fetched and delivered, an identifier already seen
/// is never fetched or delivered again.
pub proof fn lemma_dedup_pass(ids: Seq<i64>, store: Set<i64>)
    ensures
        forall|x: i64| #[trigger] dedup_pass(ids, store).0.contains(x) <==> ids.contains(x) && !store.contains(x),
        forall|a: int, b: int|
            0 <= a < b < dedup_pass(ids, store).0.len() ==> dedup_pass(ids, store).0[a] != dedup_pass(ids, store).0[b],
        dedup_pass(ids, store).1 == store + ids.to_set(),
    decreases ids.len(),
{
    let (batch, s) = dedup_pass(ids, store);
    if ids.len() == 0 {
        assert(ids.to_set() =~= Set::<i64>::empty());
        assert(store + ids.to_set() =~= store);
    } else {
        let pre = ids.drop_last();
        let id = ids.last();
        lemma_dedup_pass(pre, store);
        let (pb, ps) = dedup_pass(pre, store);
        assert(ids =~= pre.push(id));
        assert(ids.to_set() =~= pre.to_set().insert(id)) by {
            assert forall|x: i64| ids.to_set().contains(x) <==> pre.to_set().insert(id).contains(x) by {
                if ids.contains(x) {
                    let k = choose|k: int| 0 <= k < ids.len() && ids[k] == x;
                    if k < pre.len() {
                        assert(pre[k] == x);
                    }
                }
                if pre.contains(x) {
                    let k = choose|k: int| 0 <= k < pre.len() && pre[k] == x;
                    assert(ids[k] == x);
                }
                assert(ids[ids.len() - 1] == id);
            }
        }
        assert forall|x: i64| #[trigger] batch.contains(x) <==> ids.contains(x) && !store.contains(x) by {
            if ids.contains(x) {
                let k = choose|k: int| 0 <= k < ids.len() && ids[k] == x;
                if k < pre.len() {
                    assert(pre[k] == x);
                    assert(pre.contains(x));
                }
            }
            if pre.contains(x) {
                let k = choose|k: int| 0 <= k < pre.len() && pre[k] == x;
                assert(ids[k] == x);
            }
            assert(ids[ids.len() - 1] == id);
            if batch.contains(x) && x != id {
                assert(!ps.contains(id) && !pb.contains(id) ==> batch == pb.push(id));
                if !ps.contains(id) && !pb.contains(id) {
                    let k = choose|k: int| 0 <= k < batch.len() && batch[k] == x;
                    assert(pb[k] == x);
                }
            }
            if pb.contains(x) {
                let k = choose|k: int| 0 <= k < pb.len() && pb[k] == x;
                if !ps.contains(id) && !pb.contains(id) {
                    assert(batch[k] == x);
                }
            }
            if x == id && !ps.contains(id) && !pb.contains(id) {
                assert(batch[batch.len() - 1] == id);
            }
        }
    }
}

} // verus!
