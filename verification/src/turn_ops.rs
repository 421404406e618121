//! Runtime operations that the store applies to one turn by key.
use vstd::prelude::*;
use crate::event_seq::SessionTurnEventSeqBlock;
use crate::projection::{dirty_entry_is_not, events_flushed, refreshed_flushed_generation};
use crate::runtime::{next_generation, strings_contain, RuntimePart, SessionTurnRuntime};
use crate::runtime_types::{
    resource_delta_key_spec, resource_kind_spec, resource_turn_delta, ProjectionDirtyOp,
    ProjectionEntity, ResourceLedgerDelta, ResourceTurnDelta, SessionTurnDirtySets,
};

verus! {

impl SessionTurnRuntime {
    /// `b` is `a` after taking `taken` from the reserved event sequence.
    pub open spec fn took_event_seq(a: &Self, b: &Self, taken: Option<u64>) -> bool {
        if a.event_seq_block is Some && a.event_seq_block->0.next_event_seq < a.event_seq_block->0.exclusive_end_event_seq {
            let block = a.event_seq_block->0;
            {
                &&& taken == Some(block.next_event_seq)
                &&& b.event_seq_block == Some(SessionTurnEventSeqBlock {
                    next_event_seq: (block.next_event_seq + 1) as u64,
                    exclusive_end_event_seq: block.exclusive_end_event_seq,
                })
                &&& b.generation == next_generation(a.generation)
                &&& b.dirty == (SessionTurnDirtySets { events: true, ..a.dirty })
                &&& Self::same_except_block(a, b)
            }
        } else {
            &&& taken is None
            &&& Self::unchanged(a, b)
        }
    }

    /// `b` agrees with `a` on everything but the event block, the generation
    /// and the dirty flags.
    pub open spec fn same_except_block(a: &Self, b: &Self) -> bool {
        &&& Self::same_except(a, b, RuntimePart::EventSeqBlock)
        &&& a.central_objectives_completed == b.central_objectives_completed
        &&& a.projection_dirty_queue@ == b.projection_dirty_queue@
        &&& a.projection_checkpoint == b.projection_checkpoint
    }

    /// Takes the next reserved event sequence number of the turn, if the
    /// reserved block has one left; taking one counts as a change.
    pub fn take_reserved_event_seq(&mut self) -> (taken: Option<u64>)
        requires
            old(self).wf(),
        ensures
            final(self).wf(),
            Self::took_event_seq(old(self), final(self), taken),
    {
        let taken = match &mut self.event_seq_block {
            Some(block) => block.take_event_seq(),
            None => None,
        };
        if taken.is_some() {
            self.dirty.events = true;
            self.mark_dirty();
        }
        proof {
            if old(self).event_seq_block is Some && old(self).event_seq_block->0.next_event_seq < old(self).event_seq_block->0.exclusive_end_event_seq {
                assert(taken is Some);
            } else {
                assert(taken is None);
            }
        }
        taken
    }

    /// `b` is `a` after recording a resource change of `delta` units of
    /// `resource_key` for `participant_id`, with an optional ledger line.
    pub open spec fn recorded_resource(
        a: &Self,
        b: &Self,
        participant_id: Seq<char>,
        resource_key: Seq<char>,
        delta: i64,
        ledger: Option<ResourceLedgerDelta>,
        now_ms: u64,
    ) -> bool {
        match resource_kind_spec(resource_key) {
            None => Self::unchanged(a, b),
            Some(k) => {
                &&& b.resource_deltas@.len() == a.resource_deltas@.len() + 1
                &&& b.resource_deltas@.drop_last() == a.resource_deltas@
                &&& {
                    let d = b.resource_deltas@.last();
                    &&& d.participant_id@ == participant_id
                    &&& d.ledger == ledger
                    &&& d.gold == (if k is Gold { delta } else { 0 })
                    &&& d.wood == (if k is Wood { delta } else { 0 })
                    &&& d.stone == (if k is Stone { delta } else { 0 })
                    &&& d.iron == (if k is Iron { delta } else { 0 })
                    &&& d.crystal == (if k is Crystal { delta } else { 0 })
                    &&& d.ember == (if k is Ember { delta } else { 0 })
                    &&& d.aether == (if k is Aether { delta } else { 0 })
                    &&& Self::recorded(a, b, ProjectionEntity::ResourceDelta, resource_delta_key_spec(d), ProjectionDirtyOp::Upsert, now_ms)
                }
                &&& b.dirty == (SessionTurnDirtySets { resource_deltas: true, ..a.dirty })
                &&& Self::same_except(a, b, RuntimePart::ResourceDeltas)
            },
        }
    }

    /// Records a change of one resource; an unknown resource name records
    /// nothing.
    pub fn record_resource(
        &mut self,
        participant_id: &str,
        resource_key: &str,
        delta: i64,
        ledger: Option<ResourceLedgerDelta>,
        now_ms: u64,
    )
        requires
            old(self).wf(),
        ensures
            final(self).wf(),
            Self::recorded_resource(old(self), final(self), participant_id@, resource_key@, delta, ledger, now_ms),
    {
        match resource_turn_delta(participant_id, resource_key, delta) {
            Some(d) => {
                let d = ResourceTurnDelta { ledger, ..d };
                let ghost dd = d;
                self.push_resource_delta(d, now_ms);
                proof {
                    assert(self.resource_deltas@.drop_last() =~= old(self).resource_deltas@);
                    assert(self.resource_deltas@.last() == dd);
                }
            },
            None => {},
        }
    }

    /// `b` is `a` after completing the projection of `(entity, key)`.
    pub open spec fn completed_entry(a: &Self, b: &Self, entity: ProjectionEntity, key: Seq<char>, now_ms: u64) -> bool {
        &&& b.projection_dirty_queue@ == a.projection_dirty_queue@.filter(dirty_entry_is_not(entity, key))
        &&& entity == ProjectionEntity::Event ==> b.active_events@ == events_flushed(a.active_events@, key)
        &&& entity != ProjectionEntity::Event ==> b.active_events@ == a.active_events@
        &&& Self::same_except(a, b, RuntimePart::Events)
        &&& b.central_objectives_completed == a.central_objectives_completed
        &&& b.generation == a.generation
        &&& b.dirty == a.dirty
        &&& b.projection_checkpoint.flushed_generation == refreshed_flushed_generation(
            a.projection_checkpoint.flushed_generation,
            a.generation,
            b.queue(),
        )
        &&& b.projection_checkpoint.flushed_at_ms == now_ms
        &&& b.projection_checkpoint.pending_entries == b.projection_dirty_queue@.len()
    }

    /// `b` is `a` after marking `participant_id` ready.
    pub open spec fn marked_ready(a: &Self, b: &Self, participant_id: Seq<char>, inserted: bool, now_ms: u64) -> bool {
        &&& inserted == !strings_contain(a.ready_participants@, participant_id)
        &&& !inserted ==> Self::unchanged(a, b)
        &&& inserted ==> {
            &&& b.ready_participants@.len() == a.ready_participants@.len() + 1
            &&& b.ready_participants@.drop_last() == a.ready_participants@
            &&& b.ready_participants@.last()@ == participant_id
            &&& b.dirty == (SessionTurnDirtySets { ready: true, ..a.dirty })
            &&& Self::same_except(a, b, RuntimePart::Ready)
            &&& Self::recorded(a, b, ProjectionEntity::Ready, participant_id, ProjectionDirtyOp::Upsert, now_ms)
        }
    }
}

} // verus!
