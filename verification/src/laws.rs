//! Properties of the kernel that span several operations or calls.
use vstd::prelude::*;
use crate::event_seq::SessionTurnEventSeqBlock;
use crate::projection::{min_generation, refreshed_flushed_generation};
use crate::resources::{apply_u64_delta_spec, ResourceError};
use crate::runtime::{dirty_matches, record_dirty_spec, SessionTurnRuntime};
use crate::runtime_types::{DirtyEntryView, ProjectionDirtyOp, ProjectionEntity};
use crate::seqs::{find_first, lemma_find_first, lemma_find_first_is, lemma_find_first_none};
use crate::order::{chars_lt, lemma_lt_irreflexive, lemma_lt_trichotomy};
use crate::store::{
    inserted, insert_position, lemma_insert_sorted, lemma_update_same_key, runtime_after,
    runtime_has_key, sorted_by_key,
};

verus! {

/// Law: two blocks reserved one after the other from the same session
/// counter never overlap: every number of the first comes before every
/// number of the second.
pub proof fn lemma_reserved_blocks_disjoint(
    first: SessionTurnEventSeqBlock,
    counter_after_first: u64,
    second: SessionTurnEventSeqBlock,
)
    requires
        first.next_event_seq <= first.exclusive_end_event_seq,
        first.exclusive_end_event_seq == counter_after_first,
        second.next_event_seq == counter_after_first,
    ensures
        forall|s: u64| #[trigger] in_block(first, s) ==> !in_block(second, s),
        forall|a: u64, b: u64| #[trigger] in_block(first, a) && #[trigger] in_block(second, b) ==> a < b,
{
}

/// Whether `s` lies in the block `b`.
pub open spec fn in_block(b: SessionTurnEventSeqBlock, s: u64) -> bool {
    b.next_event_seq <= s < b.exclusive_end_event_seq
}

/// Law: recording the same record twice leaves a single queue entry for it,
/// which carries the later generation, operation and time, keeps the time
/// the record first became dirty, and takes the more urgent priority; the
/// second record adds no entry.
pub proof fn lemma_dirty_queue_coalesces(
    q: Seq<DirtyEntryView>,
    kernel: Seq<char>,
    entity: ProjectionEntity,
    key: Seq<char>,
    g1: u64,
    op1: ProjectionDirtyOp,
    p1: u8,
    t1: u64,
    g2: u64,
    op2: ProjectionDirtyOp,
    p2: u8,
    t2: u64,
)
    ensures
        ({
            let q1 = record_dirty_spec(q, kernel, g1, entity, key, op1, p1, t1);
            let q2 = record_dirty_spec(q1, kernel, g2, entity, key, op2, p2, t2);
            let i = find_first(q1, dirty_matches(kernel, entity, key));
            &&& q1.len() == q.len() + (if find_first(q, dirty_matches(kernel, entity, key)) >= 0 { 0int } else { 1int })
            &&& q2.len() == q1.len()
            &&& 0 <= i < q2.len()
            &&& find_first(q2, dirty_matches(kernel, entity, key)) == i
            &&& q2[i].generation == g2
            &&& q2[i].op == op2
            &&& q2[i].last_dirty_at_ms == t2
            &&& q2[i].first_dirty_at_ms == q1[i].first_dirty_at_ms
            &&& q2[i].priority <= p1 && q2[i].priority <= p2
            &&& forall|j: int| 0 <= j < q2.len() && j != i ==> #[trigger] q2[j] == q1[j]
        }),
{
    let p = dirty_matches(kernel, entity, key);
    let q1 = record_dirty_spec(q, kernel, g1, entity, key, op1, p1, t1);
    let q2 = record_dirty_spec(q1, kernel, g2, entity, key, op2, p2, t2);
    lemma_find_first(q, p);
    let i0 = find_first(q, p);
    if i0 >= 0 {
        assert forall|j: int| 0 <= j < i0 implies !p(#[trigger] q1[j]) by {
            assert(q1[j] == q[j]);
        }
        lemma_find_first_is(q1, p, i0);
    } else {
        assert forall|j: int| 0 <= j < q.len() implies !p(#[trigger] q1[j]) by {
            assert(q1[j] == q[j]);
        }
        lemma_find_first_is(q1, p, q.len() as int);
    }
    let i = find_first(q1, p);
    assert forall|j: int| 0 <= j < i implies !p(#[trigger] q2[j]) by {
        assert(q2[j] == q1[j]);
        lemma_find_first(q1, p);
    }
    lemma_find_first_is(q2, p, i);
}

/// Law: refreshing the projection checkpoint never moves it back and never
/// past the runtime's generation; with nothing pending it reaches the
/// generation, and otherwise it stays below the oldest pending change
/// unless it was already past it.
pub proof fn lemma_checkpoint_bounds(previous: u64, generation: u64, q: Seq<DirtyEntryView>)
    requires
        previous <= generation,
    ensures
        ({
            let r = refreshed_flushed_generation(previous, generation, q);
            &&& previous <= r <= generation
            &&& q.len() == 0 ==> r == generation
            &&& forall|m: u64| #[trigger] min_generation(q) == Some(m) && previous < m && m > 0 ==> r < m
        }),
{
    if q.len() == 0 {
        assert(min_generation(q) is None);
    }
}

/// Law: marking the same participant ready twice changes nothing the
/// second time.
pub proof fn lemma_mark_ready_idempotent(
    a: SessionTurnRuntime,
    b: SessionTurnRuntime,
    c: SessionTurnRuntime,
    participant_id: Seq<char>,
    first: bool,
    second: bool,
    t1: u64,
    t2: u64,
)
    requires
        SessionTurnRuntime::marked_ready(&a, &b, participant_id, first, t1),
        SessionTurnRuntime::marked_ready(&b, &c, participant_id, second, t2),
    ensures
        !second,
        SessionTurnRuntime::unchanged(&b, &c),
{
    if first {
        let n = b.ready_participants@.len() - 1;
        assert(b.ready_participants@[n]@ == participant_id);
    } else {
        assert(b.ready_participants@ == a.ready_participants@);
    }
}

/// Law: giving back what a spend took restores the balance.
pub proof fn lemma_refund_restores(value: u64, amount: i64)
    requires
        amount > 0,
        apply_u64_delta_spec(value, -amount as i64) is Ok,
    ensures
        apply_u64_delta_spec(apply_u64_delta_spec(value, -amount as i64)->Ok_0, amount) == Ok::<u64, ResourceError>(value),
{
}

/// The runtime stored under key `k` in `rs`, if any.
pub open spec fn lookup_in(rs: Seq<SessionTurnRuntime>, k: Seq<char>) -> Option<SessionTurnRuntime> {
    let i = find_first(rs, runtime_has_key(k));
    if i >= 0 { Some(rs[i]) } else { None }
}

/// The runtimes `rs` after removing the one stored under key `k`.
pub open spec fn removed(rs: Seq<SessionTurnRuntime>, k: Seq<char>) -> Seq<SessionTurnRuntime> {
    let i = find_first(rs, runtime_has_key(k));
    if i >= 0 { rs.remove(i) } else { rs }
}

/// Law: after a runtime is stored, reading its key gives it back, reading
/// any other key gives what it gave before, and the runtimes stay in key
/// order.
pub proof fn lemma_store_read_after_write(rs: Seq<SessionTurnRuntime>, r: SessionTurnRuntime, k: Seq<char>)
    requires
        sorted_by_key(rs),
    ensures
        sorted_by_key(inserted(rs, r)),
        lookup_in(inserted(rs, r), r.kernel()) == Some(r),
        k != r.kernel() ==> lookup_in(inserted(rs, r), k) == lookup_in(rs, k),
{
    let kr = r.kernel();
    let pr = runtime_has_key(kr);
    let pk = runtime_has_key(k);
    lemma_find_first(rs, pr);
    lemma_find_first(rs, pk);
    let i = find_first(rs, pr);
    let t = inserted(rs, r);
    if i >= 0 {
        lemma_update_same_key(rs, i, r);
        assert(t == rs.update(i, r));
        assert forall|j: int| 0 <= j < i implies !pr(#[trigger] t[j]) by {
            assert(t[j] == rs[j]);
        }
        lemma_find_first_is(t, pr, i);
        if k != kr {
            assert(find_first(t, pk) == find_first(rs, pk));
            let j = find_first(rs, pk);
            if j >= 0 {
                assert(j != i);
                assert(t[j] == rs[j]);
            }
        }
    } else {
        let pos = insert_position(rs, kr);
        let pa = runtime_after(kr);
        lemma_find_first(rs, pa);
        assert forall|j: int| 0 <= j < pos implies chars_lt(#[trigger] rs[j].kernel(), kr) by {
            assert(!pa(rs[j]));
            assert(!pr(rs[j]));
            lemma_lt_trichotomy(rs[j].kernel(), kr);
        }
        lemma_insert_sorted(rs, r, pos);
        assert(t == rs.insert(pos, r));
        assert forall|j: int| 0 <= j < pos implies !pr(#[trigger] t[j]) by {
            assert(t[j] == rs[j]);
        }
        lemma_find_first_is(t, pr, pos);
        if k != kr {
            let j = find_first(rs, pk);
            if j >= 0 {
                if j < pos {
                    assert forall|x: int| 0 <= x < j implies !pk(#[trigger] t[x]) by {
                        assert(t[x] == rs[x]);
                    }
                    assert(t[j] == rs[j]);
                    lemma_find_first_is(t, pk, j);
                } else {
                    assert forall|x: int| 0 <= x < j + 1 implies !pk(#[trigger] t[x]) by {
                        if x < pos {
                            assert(t[x] == rs[x]);
                        } else if x > pos {
                            assert(t[x] == rs[x - 1]);
                        }
                    }
                    assert(t[j + 1] == rs[j]);
                    lemma_find_first_is(t, pk, j + 1);
                }
            } else {
                assert forall|x: int| 0 <= x < t.len() implies !pk(#[trigger] t[x]) by {
                    if x < pos {
                        assert(t[x] == rs[x]);
                    } else if x > pos {
                        assert(t[x] == rs[x - 1]);
                    }
                }
                lemma_find_first_none(t, pk);
            }
        }
    }
}

/// Law: after the runtime stored under `k` is removed, reading `k` finds
/// nothing and reading any other key gives what it gave before.
pub proof fn lemma_store_read_after_remove(rs: Seq<SessionTurnRuntime>, k: Seq<char>, other: Seq<char>)
    requires
        sorted_by_key(rs),
    ensures
        lookup_in(removed(rs, k), k) is None,
        other != k ==> lookup_in(removed(rs, k), other) == lookup_in(rs, other),
{
    let pk = runtime_has_key(k);
    let po = runtime_has_key(other);
    lemma_find_first(rs, pk);
    lemma_find_first(rs, po);
    let i = find_first(rs, pk);
    let t = removed(rs, k);
    if i >= 0 {
        assert(t == rs.remove(i));
        assert forall|x: int| 0 <= x < t.len() implies !pk(#[trigger] t[x]) by {
            if x < i {
                assert(t[x] == rs[x]);
            } else {
                assert(t[x] == rs[x + 1]);
                assert(chars_lt(rs[i].kernel(), rs[x + 1].kernel()));
                lemma_lt_irreflexive(k);
            }
        }
        lemma_find_first_none(t, pk);
        if other != k {
            let j = find_first(rs, po);
            if j >= 0 {
                assert(j != i);
                if j < i {
                    assert forall|x: int| 0 <= x < j implies !po(#[trigger] t[x]) by {
                        assert(t[x] == rs[x]);
                    }
                    assert(t[j] == rs[j]);
                    lemma_find_first_is(t, po, j);
                } else {
                    assert forall|x: int| 0 <= x < j - 1 implies !po(#[trigger] t[x]) by {
                        if x < i {
                            assert(t[x] == rs[x]);
                        } else {
                            assert(t[x] == rs[x + 1]);
                        }
                    }
                    assert(t[j - 1] == rs[j]);
                    lemma_find_first_is(t, po, j - 1);
                }
            } else {
                assert forall|x: int| 0 <= x < t.len() implies !po(#[trigger] t[x]) by {
                    if x < i {
                        assert(t[x] == rs[x]);
                    } else {
                        assert(t[x] == rs[x + 1]);
                    }
                }
                lemma_find_first_none(t, po);
            }
        }
    } else {
        lemma_find_first_none(t, pk);
    }
}

} // verus!
