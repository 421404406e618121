//! Completing projection work: the checkpoint of a runtime and the
//! diagnostics that report how far projection lags behind the runtime.
use vstd::prelude::*;
use crate::runtime::{RuntimePart, SessionTurnRuntime};
use crate::runtime_types::{DirtyEntryView, ProjectionDirtyEntry, ProjectionEntity, SessionTurnEvent};
use crate::seqs::{contains_key, keys_unique, lemma_filter_keyed, lemma_filter_take_step, Keyed};

verus! {

/// Smallest generation among the entries of `q`, if any.
pub open spec fn min_generation(q: Seq<DirtyEntryView>) -> Option<u64>
    decreases q.len(),
{
    if q.len() == 0 {
        None
    } else {
        let last = q.last().generation;
        match min_generation(q.drop_last()) {
            Some(m) => Some(if m <= last { m } else { last }),
            None => Some(last),
        }
    }
}

/// Earliest first-dirty time among the entries of `q`, if any.
pub open spec fn min_first_dirty(q: Seq<DirtyEntryView>) -> Option<u64>
    decreases q.len(),
{
    if q.len() == 0 {
        None
    } else {
        let last = q.last().first_dirty_at_ms;
        match min_first_dirty(q.drop_last()) {
            Some(m) => Some(if m <= last { m } else { last }),
            None => Some(last),
        }
    }
}

/// The generation up to which every change has been projected: one below
/// the oldest pending change, or the current generation when nothing is
/// pending, never above the current generation and never moving back.
pub open spec fn refreshed_flushed_generation(previous: u64, generation: u64, q: Seq<DirtyEntryView>) -> u64 {
    let candidate: u64 = match min_generation(q) {
        Some(m) => if m > 0 { (m - 1) as u64 } else { 0 },
        None => generation,
    };
    let bounded: u64 = if candidate <= generation { candidate } else { generation };
    if previous >= bounded { previous } else { bounded }
}

/// Exec entries that survive completing `(entity, key)`.
pub open spec fn dirty_entry_is_not(entity: ProjectionEntity, key: Seq<char>) -> spec_fn(ProjectionDirtyEntry) -> bool {
    |e: ProjectionDirtyEntry| !(e.entity == entity && e.key@ == key)
}

/// Removes the entries of `(entity, key)` from a dirty queue.
fn remove_dirty_entries(v: &mut Vec<ProjectionDirtyEntry>, entity: ProjectionEntity, key: &str)
    ensures
        final(v)@ == old(v)@.filter(dirty_entry_is_not(entity, key@)),
{
    let ghost s0 = v@;
    let ghost keep = dirty_entry_is_not(entity, key@);
    let mut i: usize = 0;
    let ghost mut j: int = 0;
    proof {
        reveal(Seq::filter);
        assert(s0.take(0) =~= Seq::<ProjectionDirtyEntry>::empty());
        assert(s0.skip(0) =~= s0);
        assert(s0.take(0).filter(keep) =~= Seq::<ProjectionDirtyEntry>::empty());
    }
    while i < v.len()
        invariant
            0 <= j <= s0.len(),
            keep == dirty_entry_is_not(entity, key@),
            v@ == s0.take(j).filter(keep) + s0.skip(j),
            i == s0.take(j).filter(keep).len(),
        decreases s0.len() - j,
    {
        proof {
            assert(v@[i as int] == s0[j]);
            lemma_filter_take_step(s0, keep, j);
        }
        let hit = v[i].entity == entity && crate::text::str_eq(v[i].key.as_str(), key);
        if hit {
            v.remove(i);
        } else {
            i = i + 1;
        }
        proof {
            j = j + 1;
            assert(v@ =~= s0.take(j).filter(keep) + s0.skip(j));
        }
    }
    proof {
        assert(j == s0.len());
        assert(s0.take(j) =~= s0);
        assert(v@ =~= s0.filter(keep));
    }
}

/// Marks every event with key `key` as written out.
fn mark_events_flushed(v: &mut Vec<SessionTurnEvent>, key: &str)
    ensures
        final(v)@ == events_flushed(old(v)@, key@),
{
    let n = v.len();
    let mut i: usize = 0;
    while i < n
        invariant
            n == v@.len(),
            n == old(v)@.len(),
            i <= n,
            forall|j: int| 0 <= j < i ==> #[trigger] v@[j] == events_flushed(old(v)@, key@)[j],
            forall|j: int| i <= j < n ==> #[trigger] v@[j] == old(v)@[j],
        decreases n - i,
    {
        let ghost before = v@;
        let hit = crate::text::str_eq(v[i].event.event_key.as_str(), key);
        proof {
            assert(before[i as int] == old(v)@[i as int]);
        }
        if hit {
            let mut e = v.remove(i);
            e.flushed = true;
            v.insert(i, e);
            proof {
                assert(v@ =~= before.update(i as int, e));
            }
        }
        proof {
            assert(v@[i as int] == events_flushed(old(v)@, key@)[i as int]);
            assert forall|j: int| 0 <= j < n && j != i implies #[trigger] v@[j] == before[j] by {}
        }
        i = i + 1;
    }
    assert(v@ =~= events_flushed(old(v)@, key@));
}

/// The events after the event with key `key` was written out.
pub open spec fn events_flushed(events: Seq<SessionTurnEvent>, key: Seq<char>) -> Seq<SessionTurnEvent> {
    events.map_values(
        |e: SessionTurnEvent|
            if e.event.event_key@ == key {
                SessionTurnEvent { flushed: true, ..e }
            } else {
                e
            },
    )
}

/// How far the projection of one runtime lags behind it.
pub struct ProjectionKernelDiagnostic {
    pub kernel_id: String,
    pub session_id: String,
    pub turn_number: u32,
    pub dirty_queue_len: usize,
    pub oldest_dirty_age_ms: Option<u64>,
    pub kernel_generation: u64,
    pub flushed_generation: u64,
    pub lag_generations: u64,
    pub lag_ms: u64,
    pub flushed_at_ms: u64,
    pub pending_entries: usize,
}

/// `a - b`, or 0 when `b > a`.
pub open spec fn sat_sub(a: u64, b: u64) -> u64 {
    if a >= b { (a - b) as u64 } else { 0 }
}

/// Smallest generation of the pending entries.
fn min_pending_generation(queue: &Vec<crate::runtime_types::ProjectionDirtyEntry>) -> (min: Option<u64>)
    ensures
        min == min_generation(queue@.map_values(|e: crate::runtime_types::ProjectionDirtyEntry| e@)),
{
    let ghost q = queue@.map_values(|e: crate::runtime_types::ProjectionDirtyEntry| e@);
    let n = queue.len();
    let mut min: Option<u64> = None;
    let mut i: usize = 0;
    while i < n
        invariant
            n == queue@.len(),
            q == queue@.map_values(|e: crate::runtime_types::ProjectionDirtyEntry| e@),
            i <= n,
            min == min_generation(q.take(i as int)),
        decreases n - i,
    {
        let g = queue[i].generation;
        min = match min {
            Some(m) => Some(if m <= g { m } else { g }),
            None => Some(g),
        };
        proof {
            let t = q.take(i as int + 1);
            assert(t.drop_last() =~= q.take(i as int));
            assert(t.last() == q[i as int]);
        }
        i = i + 1;
    }
    proof {
        assert(q.take(n as int) =~= q);
    }
    min
}

/// Earliest first-dirty time of the pending entries.
fn min_pending_first_dirty(queue: &Vec<ProjectionDirtyEntry>) -> (min: Option<u64>)
    ensures
        min == min_first_dirty(queue@.map_values(|e: ProjectionDirtyEntry| e@)),
{
    let ghost q = queue@.map_values(|e: ProjectionDirtyEntry| e@);
    let n = queue.len();
    let mut min: Option<u64> = None;
    let mut i: usize = 0;
    while i < n
        invariant
            n == queue@.len(),
            q == queue@.map_values(|e: ProjectionDirtyEntry| e@),
            i <= n,
            min == min_first_dirty(q.take(i as int)),
        decreases n - i,
    {
        let t0 = queue[i].first_dirty_at_ms;
        min = match min {
            Some(m) => Some(if m <= t0 { m } else { t0 }),
            None => Some(t0),
        };
        proof {
            let t = q.take(i as int + 1);
            assert(t.drop_last() =~= q.take(i as int));
            assert(t.last() == q[i as int]);
        }
        i = i + 1;
    }
    proof {
        assert(q.take(n as int) =~= q);
    }
    min
}

/// Age at `now_ms` of the oldest pending change of a queue.
pub open spec fn oldest_age(q: Seq<DirtyEntryView>, now_ms: u64) -> Option<u64> {
    match min_first_dirty(q) {
        Some(d) => Some(sat_sub(now_ms, d)),
        None => None,
    }
}

impl SessionTurnRuntime {
    /// How far the projection of this runtime lags at time `now_ms`.
    pub fn projection_kernel_diagnostic(&self, now_ms: u64) -> (d: ProjectionKernelDiagnostic)
        ensures
            d.kernel_id@ == self.kernel(),
            d.session_id@ == self.session_id@,
            d.turn_number == self.turn_number,
            d.dirty_queue_len == self.projection_dirty_queue@.len(),
            d.oldest_dirty_age_ms == oldest_age(self.queue(), now_ms),
            d.kernel_generation == self.generation,
            d.flushed_generation == self.projection_checkpoint.flushed_generation,
            d.lag_generations == sat_sub(self.generation, self.projection_checkpoint.flushed_generation),
            d.lag_ms == match oldest_age(self.queue(), now_ms) {
                Some(a) => a,
                None => 0,
            },
            d.flushed_at_ms == self.projection_checkpoint.flushed_at_ms,
            d.pending_entries == self.projection_checkpoint.pending_entries,
    {
        let oldest = min_pending_first_dirty(&self.projection_dirty_queue);
        let age = match oldest {
            Some(t) => Some(now_ms.saturating_sub(t)),
            None => None,
        };
        ProjectionKernelDiagnostic {
            kernel_id: self.key(),
            session_id: self.session_id.clone(),
            turn_number: self.turn_number,
            dirty_queue_len: self.projection_dirty_queue.len(),
            oldest_dirty_age_ms: age,
            kernel_generation: self.generation,
            flushed_generation: self.projection_checkpoint.flushed_generation,
            lag_generations: self.generation.saturating_sub(self.projection_checkpoint.flushed_generation),
            lag_ms: match age {
                Some(a) => a,
                None => 0,
            },
            flushed_at_ms: self.projection_checkpoint.flushed_at_ms,
            pending_entries: self.projection_checkpoint.pending_entries,
        }
    }
}

impl SessionTurnRuntime {
    /// Recomputes the checkpoint from the pending entries at time `now_ms`.
    pub fn refresh_projection_checkpoint(&mut self, now_ms: u64)
        requires
            old(self).wf(),
        ensures
            final(self).wf(),
            Self::unchanged_but_checkpoint(old(self), final(self)),
            final(self).projection_checkpoint.flushed_generation == refreshed_flushed_generation(
                old(self).projection_checkpoint.flushed_generation,
                old(self).generation,
                old(self).queue(),
            ),
            final(self).projection_checkpoint.flushed_at_ms == now_ms,
            final(self).projection_checkpoint.pending_entries == old(self).projection_dirty_queue@.len(),
            final(self).projection_checkpoint.kernel_id@ == old(self).kernel(),
    {
        let min = min_pending_generation(&self.projection_dirty_queue);
        let candidate: u64 = match min {
            Some(m) => m.saturating_sub(1),
            None => self.generation,
        };
        let bounded = if candidate <= self.generation { candidate } else { self.generation };
        if self.projection_checkpoint.flushed_generation < bounded {
            self.projection_checkpoint.flushed_generation = bounded;
        }
        self.projection_checkpoint.flushed_at_ms = now_ms;
        self.projection_checkpoint.pending_entries = self.projection_dirty_queue.len();
    }

    /// Completes the projection of `(entity, key)`: its queue entries are
    /// dropped, an event with that key is marked written out, and the
    /// checkpoint is refreshed at `now_ms`.
    pub fn complete_projection_entry(&mut self, entity: ProjectionEntity, key: &str, now_ms: u64)
        requires
            old(self).wf(),
        ensures
            final(self).wf(),
            final(self).projection_dirty_queue@ == old(self).projection_dirty_queue@.filter(dirty_entry_is_not(entity, key@)),
            entity == ProjectionEntity::Event ==> final(self).active_events@ == events_flushed(old(self).active_events@, key@),
            entity != ProjectionEntity::Event ==> final(self).active_events@ == old(self).active_events@,
            Self::same_except(old(self), final(self), RuntimePart::Events),
            final(self).central_objectives_completed == old(self).central_objectives_completed,
            final(self).generation == old(self).generation,
            final(self).dirty == old(self).dirty,
            final(self).projection_checkpoint.flushed_generation == refreshed_flushed_generation(
                old(self).projection_checkpoint.flushed_generation,
                old(self).generation,
                final(self).queue(),
            ),
            final(self).projection_checkpoint.flushed_at_ms == now_ms,
            final(self).projection_checkpoint.pending_entries == final(self).projection_dirty_queue@.len(),
            Self::completed_entry(old(self), final(self), entity, key@, now_ms),
    {
        if entity == ProjectionEntity::Event {
            mark_events_flushed(&mut self.active_events, key);
        }
        let ghost s0 = self.projection_dirty_queue@;
        remove_dirty_entries(&mut self.projection_dirty_queue, entity, key);
        self.projection_checkpoint.pending_entries = self.projection_dirty_queue.len();
        proof {
            let keep = dirty_entry_is_not(entity, key@);
            let f = s0.filter(keep);
            assert(keys_unique(s0)) by {
                assert forall|a: int, b: int| 0 <= a < s0.len() && 0 <= b < s0.len() && a != b implies #[trigger] s0[a].key_view()
                    != #[trigger] s0[b].key_view() by {
                    let oq = old(self).queue();
                    assert(oq[a] == s0[a]@);
                    assert(oq[b] == s0[b]@);
                    assert(!(oq[a].entity == oq[b].entity && oq[a].key == oq[b].key));
                }
            }
            lemma_filter_keyed(s0, keep);
            let q = self.queue();
            assert forall|a: int| 0 <= a < q.len() implies (#[trigger] q[a]).kernel_id == self.kernel()
                && q[a].generation <= self.generation by {
                assert(q[a] == f[a]@);
                let k = choose|k: int| 0 <= k < s0.len() && #[trigger] s0[k].key_view() == f[a].key_view();
                assert(contains_key(s0, f[a].key_view()));
                reveal(Seq::filter);
                assert(s0.contains(f[a])) by {
                    assert(f.contains(f[a]));
                    s0.lemma_filter_contains_rev(keep, f[a]);
                }
                let m = choose|m: int| 0 <= m < s0.len() && s0[m] == f[a];
                assert(old(self).queue()[m] == s0[m]@);
            }
            assert forall|a: int, b: int| 0 <= a < q.len() && 0 <= b < q.len() && a != b implies !(#[trigger] q[a].entity
                == #[trigger] q[b].entity && q[a].key == q[b].key) by {
                assert(q[a] == f[a]@ && q[b] == f[b]@);
                assert(f[a].key_view() != f[b].key_view());
            }
        }
        self.refresh_projection_checkpoint(now_ms);
    }

    /// `b` differs from `a` at most in its checkpoint.
    pub open spec fn unchanged_but_checkpoint(a: &Self, b: &Self) -> bool {
        &&& Self::same_except(a, b, RuntimePart::Nothing)
        &&& a.central_objectives_completed == b.central_objectives_completed
        &&& a.generation == b.generation
        &&& a.dirty == b.dirty
        &&& a.projection_dirty_queue@ == b.projection_dirty_queue@
    }
}

} // verus!
