//! Exact copies of the kernel's records, for the places where the runtime of
//! one turn is read while another is changed, or handed out whole.
use vstd::prelude::*;
use crate::event_seq::SessionTurnEventSeqBlock;
use crate::runtime::SessionTurnRuntime;
use crate::runtime_types::{
    ChampionSnapshot, MovementCursor, ObjectTurnDelta, ProjectionCheckpoint, ProjectionDirtyEntry,
    QuestSnapshot, ResourceLedgerDelta, ResourceTurnDelta, RuntimeChampionSpell,
    RuntimeContactCell, RuntimeEventView, RuntimeMovementIntent, RuntimeOccupancyCell,
    ScenarioRuleSnapshot, SessionTurnCommandReceipt, SessionTurnEvent, SessionTurnParticipant,
    WorldObjectSnapshot,
};

verus! {

/// A record that can be copied field by field into an equal record.
pub trait Duplicate: Sized {
    fn duplicate(&self) -> (copy: Self)
        ensures
            copy == *self,
    ;
}

impl Duplicate for String {
    fn duplicate(&self) -> (copy: Self) {
        self.clone()
    }
}

impl Duplicate for u32 {
    fn duplicate(&self) -> (copy: Self) {
        *self
    }
}

impl Duplicate for u8 {
    fn duplicate(&self) -> (copy: Self) {
        *self
    }
}

impl<T: Duplicate> Duplicate for Option<T> {
    fn duplicate(&self) -> (copy: Self) {
        match self {
            Some(x) => Some(x.duplicate()),
            None => None,
        }
    }
}

/// A copy of every element of `v`, in order.
pub fn dup_vec<T: Duplicate>(v: &Vec<T>) -> (copy: Vec<T>)
    ensures
        copy@ == v@,
{
    let mut out: Vec<T> = Vec::new();
    let mut i: usize = 0;
    while i < v.len()
        invariant
            i <= v@.len(),
            out@ == v@.take(i as int),
        decreases v@.len() - i,
    {
        let x = v[i].duplicate();
        out.push(x);
        proof {
            assert(v@.take(i + 1) =~= v@.take(i as int).push(v@[i as int]));
        }
        i = i + 1;
    }
    proof {
        assert(v@.take(v@.len() as int) =~= v@);
    }
    out
}

impl Duplicate for SessionTurnParticipant {
    fn duplicate(&self) -> (copy: Self) {
        SessionTurnParticipant {
            participant_id: self.participant_id.clone(),
            player_id: self.player_id.clone(),
            principal_text: self.principal_text.duplicate(),
            slot_index: self.slot_index,
            status: self.status.clone(),
        }
    }
}

impl Duplicate for ChampionSnapshot {
    fn duplicate(&self) -> (copy: Self) {
        ChampionSnapshot {
            champion_id: self.champion_id.clone(),
            participant_id: self.participant_id.clone(),
            x: self.x,
            y: self.y,
            status: self.status.clone(),
            movement_turn: self.movement_turn,
            movement_remaining: self.movement_remaining,
            movement_max: self.movement_max,
        }
    }
}

impl Duplicate for RuntimeChampionSpell {
    fn duplicate(&self) -> (copy: Self) {
        RuntimeChampionSpell {
            champion_id: self.champion_id.clone(),
            spell_id: self.spell_id.clone(),
            spell_slug: self.spell_slug.duplicate(),
            learned_turn: self.learned_turn,
            needs_flush: self.needs_flush,
        }
    }
}

impl Duplicate for WorldObjectSnapshot {
    fn duplicate(&self) -> (copy: Self) {
        WorldObjectSnapshot {
            object_id: self.object_id.clone(),
            x: self.x,
            y: self.y,
            state: self.state.clone(),
            owner_participant_id: self.owner_participant_id.duplicate(),
            guarded_neutral_army_id: self.guarded_neutral_army_id.duplicate(),
        }
    }
}

impl Duplicate for RuntimeOccupancyCell {
    fn duplicate(&self) -> (copy: Self) {
        RuntimeOccupancyCell {
            x: self.x,
            y: self.y,
            layer: self.layer.clone(),
            occupant_kind: self.occupant_kind.clone(),
            occupant_id_text: self.occupant_id_text.clone(),
            owner_participant_id: self.owner_participant_id.duplicate(),
            blocking: self.blocking,
        }
    }
}

impl Duplicate for RuntimeContactCell {
    fn duplicate(&self) -> (copy: Self) {
        RuntimeContactCell {
            x: self.x,
            y: self.y,
            subject_kind: self.subject_kind.clone(),
            subject_id_text: self.subject_id_text.clone(),
            owner_participant_id: self.owner_participant_id.duplicate(),
            guarded_neutral_army_id: self.guarded_neutral_army_id.duplicate(),
            status: self.status.clone(),
        }
    }
}

impl Duplicate for QuestSnapshot {
    fn duplicate(&self) -> (copy: Self) {
        QuestSnapshot {
            quest_id: self.quest_id.clone(),
            participant_id: self.participant_id.clone(),
            quest_key: self.quest_key.clone(),
            state: self.state.clone(),
        }
    }
}

impl Duplicate for ScenarioRuleSnapshot {
    fn duplicate(&self) -> (copy: Self) {
        ScenarioRuleSnapshot {
            rule_id: self.rule_id.clone(),
            rule_key: self.rule_key.clone(),
            state: self.state.clone(),
        }
    }
}

impl Duplicate for RuntimeMovementIntent {
    fn duplicate(&self) -> (copy: Self) {
        RuntimeMovementIntent {
            intent_id: self.intent_id.clone(),
            command_id: self.command_id.clone(),
            actor_participant_id: self.actor_participant_id.clone(),
            champion_id: self.champion_id.clone(),
            path_json: self.path_json.clone(),
            path_hash: self.path_hash.clone(),
            status: self.status.clone(),
        }
    }
}

impl Duplicate for SessionTurnCommandReceipt {
    fn duplicate(&self) -> (copy: Self) {
        SessionTurnCommandReceipt {
            command_id: self.command_id.clone(),
            command_type: self.command_type.clone(),
            actor_participant_id: self.actor_participant_id.clone(),
            client_nonce_text: self.client_nonce_text.clone(),
            client_nonce: self.client_nonce,
            turn_number: self.turn_number,
            payload_hash: self.payload_hash.clone(),
            payload_json: self.payload_json.duplicate(),
            response_json: self.response_json.clone(),
        }
    }
}

impl Duplicate for RuntimeEventView {
    fn duplicate(&self) -> (copy: Self) {
        RuntimeEventView {
            session_id: self.session_id.clone(),
            event_seq: self.event_seq,
            event_key: self.event_key.clone(),
            audience_key: self.audience_key.clone(),
            turn_number: self.turn_number,
            event_type: self.event_type.clone(),
            subject_kind: self.subject_kind.duplicate(),
            subject_id_text: self.subject_id_text.duplicate(),
            payload: self.payload.duplicate(),
            redacted: self.redacted,
        }
    }
}

impl Duplicate for SessionTurnEvent {
    fn duplicate(&self) -> (copy: Self) {
        SessionTurnEvent {
            command_id: self.command_id.duplicate(),
            event: self.event.duplicate(),
            flushed: self.flushed,
        }
    }
}

impl Duplicate for ObjectTurnDelta {
    fn duplicate(&self) -> (copy: Self) {
        ObjectTurnDelta {
            subject_kind: self.subject_kind.clone(),
            subject_id: self.subject_id.clone(),
            x: self.x,
            y: self.y,
            visible: self.visible,
        }
    }
}

impl Duplicate for ResourceLedgerDelta {
    fn duplicate(&self) -> (copy: Self) {
        ResourceLedgerDelta {
            command_id: self.command_id.clone(),
            ledger_key: self.ledger_key.clone(),
            resource_key: self.resource_key.clone(),
            delta: self.delta,
            balance_after: self.balance_after,
            reason: self.reason.clone(),
        }
    }
}

impl Duplicate for ResourceTurnDelta {
    fn duplicate(&self) -> (copy: Self) {
        ResourceTurnDelta {
            participant_id: self.participant_id.clone(),
            gold: self.gold,
            wood: self.wood,
            stone: self.stone,
            iron: self.iron,
            crystal: self.crystal,
            ember: self.ember,
            aether: self.aether,
            ledger: self.ledger.duplicate(),
        }
    }
}

impl Duplicate for MovementCursor {
    fn duplicate(&self) -> (copy: Self) {
        MovementCursor { consumed_steps: self.consumed_steps, parked_intents: self.parked_intents }
    }
}

impl Duplicate for SessionTurnEventSeqBlock {
    fn duplicate(&self) -> (copy: Self) {
        SessionTurnEventSeqBlock {
            next_event_seq: self.next_event_seq,
            exclusive_end_event_seq: self.exclusive_end_event_seq,
        }
    }
}

impl Duplicate for ProjectionDirtyEntry {
    fn duplicate(&self) -> (copy: Self) {
        ProjectionDirtyEntry {
            kernel_id: self.kernel_id.clone(),
            generation: self.generation,
            entity: self.entity,
            key: self.key.clone(),
            op: self.op,
            priority: self.priority,
            first_dirty_at_ms: self.first_dirty_at_ms,
            last_dirty_at_ms: self.last_dirty_at_ms,
        }
    }
}

impl Duplicate for ProjectionCheckpoint {
    fn duplicate(&self) -> (copy: Self) {
        ProjectionCheckpoint {
            kernel_id: self.kernel_id.clone(),
            flushed_generation: self.flushed_generation,
            flushed_at_ms: self.flushed_at_ms,
            pending_entries: self.pending_entries,
        }
    }
}

impl SessionTurnRuntime {
    /// A copy of the whole runtime, holding the same state.
    pub fn duplicate(&self) -> (copy: Self)
        ensures
            Self::unchanged(self, &copy),
            copy.wf() == self.wf(),
    {
        let copy = SessionTurnRuntime {
            session_id: self.session_id.clone(),
            turn_number: self.turn_number,
            turn_started_at_ms: self.turn_started_at_ms,
            turn_deadline_at_ms: self.turn_deadline_at_ms,
            turn_duration_ms: self.turn_duration_ms,
            closing: self.closing,
            generation: self.generation,
            participants_complete: self.participants_complete,
            ready_complete: self.ready_complete,
            participants: dup_vec(&self.participants),
            ready_participants: dup_vec(&self.ready_participants),
            champion_snapshots: dup_vec(&self.champion_snapshots),
            champion_spell_snapshots: dup_vec(&self.champion_spell_snapshots),
            complete_champion_spellbooks: dup_vec(&self.complete_champion_spellbooks),
            world_object_snapshots: dup_vec(&self.world_object_snapshots),
            occupancy_index: dup_vec(&self.occupancy_index),
            contact_index: dup_vec(&self.contact_index),
            quest_snapshots: dup_vec(&self.quest_snapshots),
            scenario_rule_snapshots: dup_vec(&self.scenario_rule_snapshots),
            intents: dup_vec(&self.intents),
            command_receipts: dup_vec(&self.command_receipts),
            active_events: dup_vec(&self.active_events),
            event_seq_block: self.event_seq_block.duplicate(),
            central_objectives_completed: self.central_objectives_completed.duplicate(),
            object_deltas: dup_vec(&self.object_deltas),
            resource_deltas: dup_vec(&self.resource_deltas),
            partial_cursor: self.partial_cursor.duplicate(),
            dirty: self.dirty,
            projection_dirty_queue: dup_vec(&self.projection_dirty_queue),
            projection_checkpoint: self.projection_checkpoint.duplicate(),
        };
        proof {
            assert(copy.queue() =~= self.queue());
        }
        copy
    }
}

} // verus!
