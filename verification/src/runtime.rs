//! The heap-resident runtime of one active session turn: its indexes, its
//! change generation, and the queue of records to project to storage.
use vstd::prelude::*;
use crate::event_seq::SessionTurnEventSeqBlock;
use crate::runtime_types::{
    contact_key_spec, contact_projection_key, occupancy_key_spec, occupancy_projection_key,
    resource_delta_key_spec, resource_delta_projection_key, ChampionSnapshot, DirtyEntryView,
    MovementCursor, ObjectTurnDelta, ProjectionCheckpoint, ProjectionDirtyEntry,
    ProjectionDirtyOp, ProjectionEntity, QuestSnapshot, ResourceTurnDelta, RuntimeChampionSpell,
    RuntimeContactCell, RuntimeMovementIntent, RuntimeOccupancyCell, ScenarioRuleSnapshot,
    SessionTurnCommandReceipt, SessionTurnDirtySets, SessionTurnEvent, SessionTurnParticipant,
    WorldObjectSnapshot,
};
use crate::seqs::{find_first, find_key_index, has_key, lemma_filter_keyed, lemma_filter_take_step, keys_unique, lemma_find_first, lemma_upsert_keyed, upsert_by_key, upserted, Keyed};
use crate::text::{dec, push_char, push_decimal, push_str, runtime_key, runtime_key_spec};

verus! {

/// Priority of ordinary projection work; lower values flush first.
pub const PROJECTION_PRIORITY_NORMAL: u8 = 50;

/// The generation after one more change (saturating at `u64::MAX`).
pub open spec fn next_generation(g: u64) -> u64 {
    if g < u64::MAX {
        (g + 1) as u64
    } else {
        g
    }
}

/// Whether a dirty entry is the one of `(kernel, entity, key)`.
pub open spec fn dirty_matches(kernel: Seq<char>, entity: ProjectionEntity, key: Seq<char>) -> spec_fn(
    DirtyEntryView,
) -> bool {
    |e: DirtyEntryView| e.kernel_id == kernel && e.entity == entity && e.key == key
}

/// The dirty queue after recording `(entity, key)` at `generation`: an
/// existing entry for the same record takes the new generation, operation,
/// the lower priority and the new time; otherwise a new entry is appended.
pub open spec fn record_dirty_spec(
    q: Seq<DirtyEntryView>,
    kernel: Seq<char>,
    generation: u64,
    entity: ProjectionEntity,
    key: Seq<char>,
    op: ProjectionDirtyOp,
    priority: u8,
    now_ms: u64,
) -> Seq<DirtyEntryView> {
    let i = find_first(q, dirty_matches(kernel, entity, key));
    if i >= 0 {
        q.update(
            i,
            DirtyEntryView {
                generation,
                op,
                priority: if q[i].priority <= priority {
                    q[i].priority
                } else {
                    priority
                },
                last_dirty_at_ms: now_ms,
                ..q[i]
            },
        )
    } else {
        q.push(
            DirtyEntryView {
                kernel_id: kernel,
                generation,
                entity,
                key,
                op,
                priority,
                first_dirty_at_ms: now_ms,
                last_dirty_at_ms: now_ms,
            },
        )
    }
}

/// No two entries of `s` are equal strings.
pub open spec fn strings_unique(s: Seq<String>) -> bool {
    forall|i: int, j: int| 0 <= i < s.len() && 0 <= j < s.len() && i != j ==> #[trigger] s[i]@ != #[trigger] s[j]@
}

/// Whether some string of `s` has the characters `v`.
pub open spec fn strings_contain(s: Seq<String>, v: Seq<char>) -> bool {
    exists|i: int| 0 <= i < s.len() && #[trigger] s[i]@ == v
}

/// The part of a runtime that an operation is allowed to change.
pub enum RuntimePart {
    Participants,
    Ready,
    Champions,
    ChampionSpells,
    WorldObjects,
    Occupancy,
    Contacts,
    Quests,
    ScenarioRules,
    Intents,
    Receipts,
    Events,
    ObjectDeltas,
    ResourceDeltas,
    EventSeqBlock,
    Nothing,
}

/// Heap state of the active turn `turn_number` of session `session_id`.
pub struct SessionTurnRuntime {
    pub session_id: String,
    pub turn_number: u32,
    pub turn_started_at_ms: u64,
    pub turn_deadline_at_ms: u64,
    pub turn_duration_ms: u64,
    pub closing: bool,
    pub generation: u64,
    pub participants_complete: bool,
    pub ready_complete: bool,
    pub participants: Vec<SessionTurnParticipant>,
    pub ready_participants: Vec<String>,
    pub champion_snapshots: Vec<ChampionSnapshot>,
    pub champion_spell_snapshots: Vec<RuntimeChampionSpell>,
    pub complete_champion_spellbooks: Vec<String>,
    pub world_object_snapshots: Vec<WorldObjectSnapshot>,
    pub occupancy_index: Vec<RuntimeOccupancyCell>,
    pub contact_index: Vec<RuntimeContactCell>,
    pub quest_snapshots: Vec<QuestSnapshot>,
    pub scenario_rule_snapshots: Vec<ScenarioRuleSnapshot>,
    pub intents: Vec<RuntimeMovementIntent>,
    pub command_receipts: Vec<SessionTurnCommandReceipt>,
    pub active_events: Vec<SessionTurnEvent>,
    pub event_seq_block: Option<SessionTurnEventSeqBlock>,
    pub central_objectives_completed: Option<u32>,
    pub object_deltas: Vec<ObjectTurnDelta>,
    pub resource_deltas: Vec<ResourceTurnDelta>,
    pub partial_cursor: Option<MovementCursor>,
    pub dirty: SessionTurnDirtySets,
    pub projection_dirty_queue: Vec<ProjectionDirtyEntry>,
    pub projection_checkpoint: ProjectionCheckpoint,
}

impl SessionTurnRuntime {
    /// The runtime key `"{session_id}:{turn_number}"` by its characters.
    pub open spec fn kernel(&self) -> Seq<char> {
        runtime_key_spec(self.session_id@, self.turn_number as nat)
    }

    /// The dirty queue with every string taken by its characters.
    pub open spec fn queue(&self) -> Seq<DirtyEntryView> {
        self.projection_dirty_queue@.map_values(|e: ProjectionDirtyEntry| e@)
    }

    /// Invariant of the projection queue and checkpoint.
    pub open spec fn queue_wf(&self) -> bool {
        let q = self.queue();
        &&& self.projection_checkpoint.kernel_id@ == self.kernel()
        &&& self.projection_checkpoint.pending_entries == q.len()
        &&& self.projection_checkpoint.flushed_generation <= self.generation
        &&& forall|i: int| 0 <= i < q.len() ==> (#[trigger] q[i]).kernel_id == self.kernel()
            && q[i].generation <= self.generation
        &&& forall|i: int, j: int|
            0 <= i < q.len() && 0 <= j < q.len() && i != j ==> !(#[trigger] q[i].entity
                == #[trigger] q[j].entity && q[i].key == q[j].key)
    }

    /// Invariant of the runtime: every index holds at most one entry per key,
    /// the ready and complete-spellbook sets hold each id once, and the
    /// projection queue is well formed.
    pub open spec fn wf(&self) -> bool {
        &&& keys_unique(self.participants@)
        &&& strings_unique(self.ready_participants@)
        &&& keys_unique(self.champion_snapshots@)
        &&& keys_unique(self.champion_spell_snapshots@)
        &&& strings_unique(self.complete_champion_spellbooks@)
        &&& keys_unique(self.world_object_snapshots@)
        &&& keys_unique(self.occupancy_index@)
        &&& keys_unique(self.contact_index@)
        &&& keys_unique(self.quest_snapshots@)
        &&& keys_unique(self.scenario_rule_snapshots@)
        &&& keys_unique(self.intents@)
        &&& keys_unique(self.command_receipts@)
        &&& self.queue_wf()
    }

    /// `b` agrees with `a` on everything but `part`, the generation, the
    /// dirty flags and the projection queue and checkpoint.
    pub open spec fn same_except(a: &Self, b: &Self, part: RuntimePart) -> bool {
        &&& a.session_id == b.session_id
        &&& a.turn_number == b.turn_number
        &&& a.turn_started_at_ms == b.turn_started_at_ms
        &&& a.turn_deadline_at_ms == b.turn_deadline_at_ms
        &&& a.turn_duration_ms == b.turn_duration_ms
        &&& a.closing == b.closing
        &&& a.participants_complete == b.participants_complete
        &&& a.ready_complete == b.ready_complete
        &&& (part is EventSeqBlock || a.event_seq_block == b.event_seq_block)
        &&& a.partial_cursor == b.partial_cursor
        &&& (part is ObjectDeltas || a.central_objectives_completed == b.central_objectives_completed)
        &&& (part is Participants || a.participants@ == b.participants@)
        &&& (part is Ready || a.ready_participants@ == b.ready_participants@)
        &&& (part is Champions || a.champion_snapshots@ == b.champion_snapshots@)
        &&& (part is ChampionSpells || a.champion_spell_snapshots@ == b.champion_spell_snapshots@)
        &&& (part is ChampionSpells || a.complete_champion_spellbooks@
            == b.complete_champion_spellbooks@)
        &&& (part is WorldObjects || a.world_object_snapshots@ == b.world_object_snapshots@)
        &&& (part is Occupancy || a.occupancy_index@ == b.occupancy_index@)
        &&& (part is Contacts || a.contact_index@ == b.contact_index@)
        &&& (part is Quests || a.quest_snapshots@ == b.quest_snapshots@)
        &&& (part is ScenarioRules || a.scenario_rule_snapshots@ == b.scenario_rule_snapshots@)
        &&& (part is Intents || a.intents@ == b.intents@)
        &&& (part is Receipts || a.command_receipts@ == b.command_receipts@)
        &&& (part is Events || a.active_events@ == b.active_events@)
        &&& (part is ObjectDeltas || a.object_deltas@ == b.object_deltas@)
        &&& (part is ResourceDeltas || a.resource_deltas@ == b.resource_deltas@)
    }

    /// `b` holds the same state as `a`.
    pub open spec fn unchanged(a: &Self, b: &Self) -> bool {
        &&& Self::same_except(a, b, RuntimePart::Nothing)
        &&& a.central_objectives_completed == b.central_objectives_completed
        &&& a.generation == b.generation
        &&& a.dirty == b.dirty
        &&& a.projection_dirty_queue@ == b.projection_dirty_queue@
        &&& a.projection_checkpoint == b.projection_checkpoint
    }

    /// `b` is `a` after one recorded change of `(entity, key)` at `now_ms`:
    /// the generation moved on by one and the queue recorded the change.
    pub open spec fn recorded(
        a: &Self,
        b: &Self,
        entity: ProjectionEntity,
        key: Seq<char>,
        op: ProjectionDirtyOp,
        now_ms: u64,
    ) -> bool {
        &&& b.generation == next_generation(a.generation)
        &&& b.queue() == record_dirty_spec(
            a.queue(),
            a.kernel(),
            b.generation,
            entity,
            key,
            op,
            PROJECTION_PRIORITY_NORMAL,
            now_ms,
        )
        &&& b.projection_checkpoint.flushed_generation == a.projection_checkpoint.flushed_generation
        &&& b.projection_checkpoint.flushed_at_ms == a.projection_checkpoint.flushed_at_ms
    }

    /// A fresh runtime for a turn, with no rows loaded and nothing dirty.
    pub fn new(
        session_id: String,
        turn_number: u32,
        turn_started_at_ms: u64,
        turn_deadline_at_ms: u64,
        turn_duration_ms: u64,
    ) -> (runtime: Self)
        ensures
            runtime.wf(),
            runtime.session_id == session_id,
            runtime.turn_number == turn_number,
            runtime.turn_started_at_ms == turn_started_at_ms,
            runtime.turn_deadline_at_ms == turn_deadline_at_ms,
            runtime.turn_duration_ms == turn_duration_ms,
            !runtime.closing,
            runtime.generation == 0,
            !runtime.participants_complete,
            !runtime.ready_complete,
            runtime.participants@.len() == 0,
            runtime.ready_participants@.len() == 0,
            runtime.champion_snapshots@.len() == 0,
            runtime.champion_spell_snapshots@.len() == 0,
            runtime.complete_champion_spellbooks@.len() == 0,
            runtime.world_object_snapshots@.len() == 0,
            runtime.occupancy_index@.len() == 0,
            runtime.contact_index@.len() == 0,
            runtime.quest_snapshots@.len() == 0,
            runtime.scenario_rule_snapshots@.len() == 0,
            runtime.intents@.len() == 0,
            runtime.command_receipts@.len() == 0,
            runtime.active_events@.len() == 0,
            runtime.event_seq_block is None,
            runtime.central_objectives_completed is None,
            runtime.object_deltas@.len() == 0,
            runtime.resource_deltas@.len() == 0,
            runtime.partial_cursor is None,
            runtime.dirty == SessionTurnDirtySets::clean_spec(),
            runtime.projection_dirty_queue@.len() == 0,
            runtime.projection_checkpoint@.kernel_id == runtime.kernel(),
            runtime.projection_checkpoint.flushed_generation == 0,
            runtime.projection_checkpoint.flushed_at_ms == 0,
            runtime.projection_checkpoint.pending_entries == 0,
    {
        let kernel_id = runtime_key(session_id.as_str(), turn_number);
        let runtime = SessionTurnRuntime {
            session_id,
            turn_number,
            turn_started_at_ms,
            turn_deadline_at_ms,
            turn_duration_ms,
            closing: false,
            generation: 0,
            participants_complete: false,
            ready_complete: false,
            participants: Vec::new(),
            ready_participants: Vec::new(),
            champion_snapshots: Vec::new(),
            champion_spell_snapshots: Vec::new(),
            complete_champion_spellbooks: Vec::new(),
            world_object_snapshots: Vec::new(),
            occupancy_index: Vec::new(),
            contact_index: Vec::new(),
            quest_snapshots: Vec::new(),
            scenario_rule_snapshots: Vec::new(),
            intents: Vec::new(),
            command_receipts: Vec::new(),
            active_events: Vec::new(),
            event_seq_block: None,
            central_objectives_completed: None,
            object_deltas: Vec::new(),
            resource_deltas: Vec::new(),
            partial_cursor: None,
            dirty: SessionTurnDirtySets::clean(),
            projection_dirty_queue: Vec::new(),
            projection_checkpoint: ProjectionCheckpoint::new(kernel_id),
        };
        proof {
            assert(runtime.queue() =~= Seq::<DirtyEntryView>::empty());
        }
        runtime
    }

    /// The runtime key of this runtime.
    pub fn key(&self) -> (key: String)
        ensures
            key@ == self.kernel(),
    {
        runtime_key(self.session_id.as_str(), self.turn_number)
    }

    /// Counts one more change of the runtime.
    pub fn mark_dirty(&mut self)
        ensures
            *final(self) == (SessionTurnRuntime { generation: next_generation(old(self).generation), ..*old(self) }),
    {
        self.generation = self.generation.saturating_add(1);
    }

    /// Records that `(entity, key)` must be projected, coalescing with an
    /// entry already queued for the same record.
    pub fn record_projection_dirty(
        &mut self,
        entity: ProjectionEntity,
        key: String,
        op: ProjectionDirtyOp,
        priority: u8,
        now_ms: u64,
    )
        requires
            old(self).queue_wf(),
        ensures
            final(self).queue_wf(),
            final(self).queue() == record_dirty_spec(
                old(self).queue(),
                old(self).kernel(),
                old(self).generation,
                entity,
                key@,
                op,
                priority,
                now_ms,
            ),
            *final(self) == (SessionTurnRuntime {
                projection_dirty_queue: final(self).projection_dirty_queue,
                projection_checkpoint: final(self).projection_checkpoint,
                ..*old(self)
            }),
            final(self).projection_checkpoint.kernel_id == old(self).projection_checkpoint.kernel_id,
            final(self).projection_checkpoint.flushed_generation
                == old(self).projection_checkpoint.flushed_generation,
            final(self).projection_checkpoint.flushed_at_ms
                == old(self).projection_checkpoint.flushed_at_ms,
    {
        let ghost q0 = self.queue();
        let ghost kernel = self.kernel();
        let ghost p = dirty_matches(kernel, entity, key@);
        let n = self.projection_dirty_queue.len();
        let mut i: usize = 0;
        while i < n
            invariant
                n == self.projection_dirty_queue@.len(),
                *self == *old(self),
                q0 == self.queue(),
                kernel == self.kernel(),
                p == dirty_matches(kernel, entity, key@),
                self.queue_wf(),
                i <= n,
                forall|j: int| 0 <= j < i ==> !p(#[trigger] q0[j]),
            decreases n - i,
        {
            let found = {
                let e = &self.projection_dirty_queue[i];
                e.kernel_id == self.projection_checkpoint.kernel_id && e.entity == entity && e.key
                    == key
            };
            if found {
                proof {
                    assert(q0[i as int] == self.projection_dirty_queue@[i as int]@);
                    lemma_find_first(q0, p);
                    crate::seqs::lemma_find_first_is(q0, p, i as int);
                }
                let old_entry = self.projection_dirty_queue[i].copy_entry();
                let new_priority = if old_entry.priority <= priority {
                    old_entry.priority
                } else {
                    priority
                };
                let updated = ProjectionDirtyEntry {
                    kernel_id: old_entry.kernel_id,
                    generation: self.generation,
                    entity: old_entry.entity,
                    key: old_entry.key,
                    op,
                    priority: new_priority,
                    first_dirty_at_ms: old_entry.first_dirty_at_ms,
                    last_dirty_at_ms: now_ms,
                };
                self.projection_dirty_queue.set(i, updated);
                self.projection_checkpoint.pending_entries = self.projection_dirty_queue.len();
                proof {
                    assert(self.queue() =~= record_dirty_spec(
                        q0,
                        kernel,
                        old(self).generation,
                        entity,
                        key@,
                        op,
                        priority,
                        now_ms,
                    ));
                }
                return;
            }
            proof {
                assert(q0[i as int] == self.projection_dirty_queue@[i as int]@);
            }
            i = i + 1;
        }
        proof {
            crate::seqs::lemma_find_first_none(q0, p);
        }
        let kernel_id = self.projection_checkpoint.kernel_id.clone();
        self.projection_dirty_queue.push(
            ProjectionDirtyEntry {
                kernel_id,
                generation: self.generation,
                entity,
                key,
                op,
                priority,
                first_dirty_at_ms: now_ms,
                last_dirty_at_ms: now_ms,
            },
        );
        self.projection_checkpoint.pending_entries = self.projection_dirty_queue.len();
        proof {
            assert(self.queue() =~= record_dirty_spec(
                q0,
                kernel,
                old(self).generation,
                entity,
                key@,
                op,
                priority,
                now_ms,
            ));
            let q = self.queue();
            assert forall|a: int, b: int|
                0 <= a < q.len() && 0 <= b < q.len() && a != b implies !(#[trigger] q[a].entity
                == #[trigger] q[b].entity && q[a].key == q[b].key) by {
                if a < n && b < n {
                    assert(q[a] == q0[a] && q[b] == q0[b]);
                } else if a < n {
                    assert(q[a] == q0[a]);
                    assert(!p(q0[a]));
                } else {
                    assert(q[b] == q0[b]);
                    assert(!p(q0[b]));
                }
            }
        }
    }
}

impl SessionTurnRuntime {
    /// Counts one change and queues `(entity, key)` for projection.
    fn finish_change(&mut self, entity: ProjectionEntity, key: String, op: ProjectionDirtyOp, now_ms: u64)
        requires
            old(self).queue_wf(),
        ensures
            final(self).queue_wf(),
            Self::recorded(old(self), final(self), entity, key@, op, now_ms),
            Self::same_except(old(self), final(self), RuntimePart::Nothing),
            final(self).dirty == old(self).dirty,
            final(self).central_objectives_completed == old(self).central_objectives_completed,
    {
        self.mark_dirty();
        self.record_projection_dirty(entity, key, op, PROJECTION_PRIORITY_NORMAL, now_ms);
    }

    /// Replaces or adds the snapshot of a champion.
    pub fn upsert_champion_snapshot(&mut self, champion: ChampionSnapshot, now_ms: u64)
        requires
            old(self).wf(),
        ensures
            final(self).wf(),
            final(self).champion_snapshots@ == upserted(old(self).champion_snapshots@, champion),
            final(self).dirty == (SessionTurnDirtySets { champion_snapshots: true, ..old(self).dirty }),
            Self::same_except(old(self), final(self), RuntimePart::Champions),
            Self::recorded(old(self), final(self), ProjectionEntity::Champion, champion.champion_id@, ProjectionDirtyOp::Upsert, now_ms),
    {
        let ghost item = champion;
        let key = champion.champion_id.clone();
        upsert_by_key(&mut self.champion_snapshots, champion);
        proof { lemma_upsert_keyed(old(self).champion_snapshots@, item); }
        self.dirty.champion_snapshots = true;
        self.finish_change(ProjectionEntity::Champion, key, ProjectionDirtyOp::Upsert, now_ms);
    }

    /// Replaces or adds the snapshot of a world object.
    pub fn upsert_world_object_snapshot(&mut self, object: WorldObjectSnapshot, now_ms: u64)
        requires
            old(self).wf(),
        ensures
            final(self).wf(),
            final(self).world_object_snapshots@ == upserted(old(self).world_object_snapshots@, object),
            final(self).dirty == (SessionTurnDirtySets { world_object_snapshots: true, ..old(self).dirty }),
            Self::same_except(old(self), final(self), RuntimePart::WorldObjects),
            Self::recorded(old(self), final(self), ProjectionEntity::WorldObject, object.object_id@, ProjectionDirtyOp::Upsert, now_ms),
    {
        let ghost item = object;
        let key = object.object_id.clone();
        upsert_by_key(&mut self.world_object_snapshots, object);
        proof { lemma_upsert_keyed(old(self).world_object_snapshots@, item); }
        self.dirty.world_object_snapshots = true;
        self.finish_change(ProjectionEntity::WorldObject, key, ProjectionDirtyOp::Upsert, now_ms);
    }

    /// Replaces or adds the occupancy of one cell on one layer.
    pub fn upsert_occupancy_cell(&mut self, cell: RuntimeOccupancyCell, now_ms: u64)
        requires
            old(self).wf(),
        ensures
            final(self).wf(),
            final(self).occupancy_index@ == upserted(old(self).occupancy_index@, cell),
            final(self).dirty == (SessionTurnDirtySets { occupancy_index: true, ..old(self).dirty }),
            Self::same_except(old(self), final(self), RuntimePart::Occupancy),
            Self::recorded(old(self), final(self), ProjectionEntity::Occupancy, occupancy_key_spec(cell.layer@, cell.x, cell.y), ProjectionDirtyOp::Upsert, now_ms),
    {
        let ghost item = cell;
        let key = occupancy_projection_key(&cell);
        upsert_by_key(&mut self.occupancy_index, cell);
        proof { lemma_upsert_keyed(old(self).occupancy_index@, item); }
        self.dirty.occupancy_index = true;
        self.finish_change(ProjectionEntity::Occupancy, key, ProjectionDirtyOp::Upsert, now_ms);
    }

    /// Replaces or adds a contact cell.
    pub fn upsert_contact_cell(&mut self, cell: RuntimeContactCell, now_ms: u64)
        requires
            old(self).wf(),
        ensures
            final(self).wf(),
            final(self).contact_index@ == upserted(old(self).contact_index@, cell),
            final(self).dirty == (SessionTurnDirtySets { contact_index: true, ..old(self).dirty }),
            Self::same_except(old(self), final(self), RuntimePart::Contacts),
            Self::recorded(old(self), final(self), ProjectionEntity::Contact, contact_key_spec(cell.x, cell.y, cell.subject_kind@, cell.subject_id_text@), ProjectionDirtyOp::Upsert, now_ms),
    {
        let ghost item = cell;
        let key = contact_projection_key(&cell);
        upsert_by_key(&mut self.contact_index, cell);
        proof { lemma_upsert_keyed(old(self).contact_index@, item); }
        self.dirty.contact_index = true;
        self.finish_change(ProjectionEntity::Contact, key, ProjectionDirtyOp::Upsert, now_ms);
    }

    /// Replaces or adds the snapshot of a quest.
    pub fn upsert_quest_snapshot(&mut self, quest: QuestSnapshot, now_ms: u64)
        requires
            old(self).wf(),
        ensures
            final(self).wf(),
            final(self).quest_snapshots@ == upserted(old(self).quest_snapshots@, quest),
            final(self).dirty == (SessionTurnDirtySets { quest_snapshots: true, ..old(self).dirty }),
            Self::same_except(old(self), final(self), RuntimePart::Quests),
            Self::recorded(old(self), final(self), ProjectionEntity::Quest, quest.quest_id@, ProjectionDirtyOp::Upsert, now_ms),
    {
        let ghost item = quest;
        let key = quest.quest_id.clone();
        upsert_by_key(&mut self.quest_snapshots, quest);
        proof { lemma_upsert_keyed(old(self).quest_snapshots@, item); }
        self.dirty.quest_snapshots = true;
        self.finish_change(ProjectionEntity::Quest, key, ProjectionDirtyOp::Upsert, now_ms);
    }

    /// Replaces or adds the snapshot of a scenario rule.
    pub fn upsert_scenario_rule_snapshot(&mut self, rule: ScenarioRuleSnapshot, now_ms: u64)
        requires
            old(self).wf(),
        ensures
            final(self).wf(),
            final(self).scenario_rule_snapshots@ == upserted(old(self).scenario_rule_snapshots@, rule),
            final(self).dirty == (SessionTurnDirtySets { scenario_rule_snapshots: true, ..old(self).dirty }),
            Self::same_except(old(self), final(self), RuntimePart::ScenarioRules),
            Self::recorded(old(self), final(self), ProjectionEntity::ScenarioRule, rule.rule_id@, ProjectionDirtyOp::Upsert, now_ms),
    {
        let ghost item = rule;
        let key = rule.rule_id.clone();
        upsert_by_key(&mut self.scenario_rule_snapshots, rule);
        proof { lemma_upsert_keyed(old(self).scenario_rule_snapshots@, item); }
        self.dirty.scenario_rule_snapshots = true;
        self.finish_change(ProjectionEntity::ScenarioRule, key, ProjectionDirtyOp::Upsert, now_ms);
    }

    /// Replaces the movement intent of the same champion, or adds it: a
    /// champion keeps at most one intent.
    pub fn upsert_intent(&mut self, intent: RuntimeMovementIntent, now_ms: u64)
        requires
            old(self).wf(),
        ensures
            final(self).wf(),
            final(self).intents@ == upserted(old(self).intents@, intent),
            final(self).dirty == (SessionTurnDirtySets { intents: true, ..old(self).dirty }),
            Self::same_except(old(self), final(self), RuntimePart::Intents),
            Self::recorded(old(self), final(self), ProjectionEntity::MovementIntent, intent.intent_id@, ProjectionDirtyOp::Upsert, now_ms),
    {
        let ghost item = intent;
        let key = intent.intent_id.clone();
        upsert_by_key(&mut self.intents, intent);
        proof { lemma_upsert_keyed(old(self).intents@, item); }
        self.dirty.intents = true;
        self.finish_change(ProjectionEntity::MovementIntent, key, ProjectionDirtyOp::Upsert, now_ms);
    }

    /// Stores the receipt of a command, replacing one with the same id.
    pub fn insert_command_receipt(&mut self, receipt: SessionTurnCommandReceipt, now_ms: u64)
        requires
            old(self).wf(),
        ensures
            final(self).wf(),
            final(self).command_receipts@ == upserted(old(self).command_receipts@, receipt),
            final(self).dirty == (SessionTurnDirtySets { command_receipts: true, ..old(self).dirty }),
            Self::same_except(old(self), final(self), RuntimePart::Receipts),
            Self::recorded(old(self), final(self), ProjectionEntity::CommandReceipt, receipt.command_id@, ProjectionDirtyOp::Upsert, now_ms),
    {
        let ghost item = receipt;
        let key = receipt.command_id.clone();
        upsert_by_key(&mut self.command_receipts, receipt);
        proof { lemma_upsert_keyed(old(self).command_receipts@, item); }
        self.dirty.command_receipts = true;
        self.finish_change(ProjectionEntity::CommandReceipt, key, ProjectionDirtyOp::Upsert, now_ms);
    }
}

/// The participant that an upsert stores: a participant without a
/// principal keeps the principal already known for the same id.
pub open spec fn merged_participant(
    s: Seq<SessionTurnParticipant>,
    p: SessionTurnParticipant,
) -> SessionTurnParticipant {
    let i = find_first(s, has_key::<SessionTurnParticipant>(p.key_view()));
    if i >= 0 && p.principal_text is None {
        SessionTurnParticipant { principal_text: s[i].principal_text, ..p }
    } else {
        p
    }
}

/// Whether some string of `v` equals `s`.
pub fn contains_string(v: &Vec<String>, s: &String) -> (found: bool)
    ensures
        found == strings_contain(v@, s@),
{
    let n = v.len();
    let mut i: usize = 0;
    while i < n
        invariant
            n == v@.len(),
            i <= n,
            forall|j: int| 0 <= j < i ==> (#[trigger] v@[j])@ != s@,
        decreases n - i,
    {
        if v[i] == *s {
            return true;
        }
        i = i + 1;
    }
    false
}

/// Adding a string that is not present keeps strings unique.
pub proof fn lemma_push_unique(s: Seq<String>, x: String)
    requires
        strings_unique(s),
        !strings_contain(s, x@),
    ensures
        strings_unique(s.push(x)),
        strings_contain(s.push(x), x@),
{
    let t = s.push(x);
    assert(t[s.len() as int] == x);
    assert forall|i: int, j: int| 0 <= i < t.len() && 0 <= j < t.len() && i != j implies #[trigger] t[i]@ != #[trigger] t[j]@ by {
        if i < s.len() && j < s.len() {
            assert(t[i] == s[i] && t[j] == s[j]);
        } else if i < s.len() {
            assert(t[i] == s[i]);
        } else {
            assert(t[j] == s[j]);
        }
    }
}

/// Adds `x` to a set of strings unless an equal string is present.
pub fn insert_string(v: &mut Vec<String>, x: String) -> (inserted: bool)
    requires
        strings_unique(old(v)@),
    ensures
        strings_unique(final(v)@),
        inserted == !strings_contain(old(v)@, x@),
        inserted ==> final(v)@ == old(v)@.push(x),
        !inserted ==> final(v)@ == old(v)@,
{
    if contains_string(v, &x) {
        return false;
    }
    proof { lemma_push_unique(v@, x); }
    v.push(x);
    true
}

impl SessionTurnRuntime {
    /// Replaces or adds a participant; a participant given without a
    /// principal keeps the principal already known for it.
    pub fn upsert_participant(&mut self, participant: SessionTurnParticipant, now_ms: u64)
        requires
            old(self).wf(),
        ensures
            final(self).wf(),
            final(self).participants@ == upserted(
                old(self).participants@,
                merged_participant(old(self).participants@, participant),
            ),
            final(self).dirty == (SessionTurnDirtySets { participants: true, ..old(self).dirty }),
            Self::same_except(old(self), final(self), RuntimePart::Participants),
            Self::recorded(old(self), final(self), ProjectionEntity::Participant, participant.participant_id@, ProjectionDirtyOp::Upsert, now_ms),
    {
        let ghost s0 = self.participants@;
        let ghost p0 = participant;
        let key = participant.participant_id.clone();
        let mut participant = participant;
        match find_key_index(&self.participants, &participant) {
            Some(i) => {
                if participant.principal_text.is_none() {
                    let kept = match &self.participants[i].principal_text {
                        Some(t) => Some(t.clone()),
                        None => None,
                    };
                    participant.principal_text = kept;
                }
            },
            None => {},
        }
        proof {
            assert(participant == merged_participant(s0, p0));
            assert(participant.key_view() == p0.key_view());
        }
        let ghost item = participant;
        upsert_by_key(&mut self.participants, participant);
        proof { lemma_upsert_keyed(s0, item); }
        self.dirty.participants = true;
        self.finish_change(ProjectionEntity::Participant, key, ProjectionDirtyOp::Upsert, now_ms);
    }

    /// Marks a participant ready; returns whether it was not ready before.
    /// Marking an already ready participant changes nothing.
    pub fn mark_ready(&mut self, participant_id: String, now_ms: u64) -> (inserted: bool)
        requires
            old(self).wf(),
        ensures
            final(self).wf(),
            inserted == !strings_contain(old(self).ready_participants@, participant_id@),
            !inserted ==> *final(self) == *old(self),
            inserted ==> {
                &&& final(self).ready_participants@ == old(self).ready_participants@.push(participant_id)
                &&& final(self).dirty == (SessionTurnDirtySets { ready: true, ..old(self).dirty })
                &&& Self::same_except(old(self), final(self), RuntimePart::Ready)
                &&& Self::recorded(old(self), final(self), ProjectionEntity::Ready, participant_id@, ProjectionDirtyOp::Upsert, now_ms)
            },
            strings_contain(final(self).ready_participants@, participant_id@),
            Self::marked_ready(old(self), final(self), participant_id@, inserted, now_ms),
    {
        if contains_string(&self.ready_participants, &participant_id) {
            return false;
        }
        let key = participant_id.clone();
        proof { lemma_push_unique(self.ready_participants@, participant_id); }
        let ghost pid = participant_id;
        self.ready_participants.push(participant_id);
        self.dirty.ready = true;
        self.finish_change(ProjectionEntity::Ready, key, ProjectionDirtyOp::Upsert, now_ms);
        proof {
            assert(self.ready_participants@.drop_last() =~= old(self).ready_participants@);
            assert(self.ready_participants@.last() == pid);
        }
        true
    }

    /// Replaces or adds a learned spell; the champion's spellbook is then
    /// known to be complete.
    #[verifier::rlimit(40)]
    pub fn upsert_champion_spell_snapshot(&mut self, spell: RuntimeChampionSpell, now_ms: u64)
        requires
            old(self).wf(),
        ensures
            final(self).wf(),
            final(self).champion_spell_snapshots@ == upserted(old(self).champion_spell_snapshots@, spell),
            strings_contain(old(self).complete_champion_spellbooks@, spell.champion_id@)
                ==> final(self).complete_champion_spellbooks@ == old(self).complete_champion_spellbooks@,
            !strings_contain(old(self).complete_champion_spellbooks@, spell.champion_id@)
                ==> final(self).complete_champion_spellbooks@ == old(self).complete_champion_spellbooks@.push(spell.champion_id),
            final(self).dirty == (SessionTurnDirtySets { champion_spell_snapshots: true, ..old(self).dirty }),
            Self::same_except(old(self), final(self), RuntimePart::ChampionSpells),
            Self::recorded(old(self), final(self), ProjectionEntity::ChampionSpell, spell.champion_id@ + seq![':'] + spell.spell_id@, ProjectionDirtyOp::Upsert, now_ms),
    {
        let ghost item = spell;
        let champion_id = spell.champion_id.clone();
        let mut key = String::new();
        push_str(&mut key, spell.champion_id.as_str());
        push_char(&mut key, ':');
        push_str(&mut key, spell.spell_id.as_str());
        proof {
            assert(key@ =~= spell.champion_id@ + seq![':'] + spell.spell_id@);
        }
        upsert_by_key(&mut self.champion_spell_snapshots, spell);
        proof { lemma_upsert_keyed(old(self).champion_spell_snapshots@, item); }
        insert_string(&mut self.complete_champion_spellbooks, champion_id);
        self.dirty.champion_spell_snapshots = true;
        self.finish_change(ProjectionEntity::ChampionSpell, key, ProjectionDirtyOp::Upsert, now_ms);
    }

    /// Marks a champion's spellbook complete; a change only the first time.
    pub fn mark_champion_spellbook_complete(&mut self, champion_id: String, now_ms: u64) -> (inserted: bool)
        requires
            old(self).wf(),
        ensures
            final(self).wf(),
            inserted == !strings_contain(old(self).complete_champion_spellbooks@, champion_id@),
            !inserted ==> *final(self) == *old(self),
            inserted ==> {
                &&& final(self).complete_champion_spellbooks@ == old(self).complete_champion_spellbooks@.push(champion_id)
                &&& final(self).champion_spell_snapshots@ == old(self).champion_spell_snapshots@
                &&& final(self).dirty == (SessionTurnDirtySets { champion_spell_snapshots: true, ..old(self).dirty })
                &&& Self::same_except(old(self), final(self), RuntimePart::ChampionSpells)
                &&& Self::recorded(old(self), final(self), ProjectionEntity::ChampionSpell, champion_id@, ProjectionDirtyOp::Upsert, now_ms)
            },
    {
        if contains_string(&self.complete_champion_spellbooks, &champion_id) {
            return false;
        }
        let key = champion_id.clone();
        proof { lemma_push_unique(self.complete_champion_spellbooks@, champion_id); }
        self.complete_champion_spellbooks.push(champion_id);
        self.dirty.champion_spell_snapshots = true;
        self.finish_change(ProjectionEntity::ChampionSpell, key, ProjectionDirtyOp::Upsert, now_ms);
        true
    }
}

/// Whether `e` is on the layer of `cell` and either at its cell or held by
/// its occupant.
pub open spec fn occupant_conflict(cell: RuntimeOccupancyCell) -> spec_fn(RuntimeOccupancyCell) -> bool {
    |e: RuntimeOccupancyCell|
        e.layer@ == cell.layer@ && ((e.x == cell.x && e.y == cell.y) || (e.occupant_kind@
            == cell.occupant_kind@ && e.occupant_id_text@ == cell.occupant_id_text@))
}

/// Cells that survive placing `cell`: those not in conflict with it.
pub open spec fn not_conflicting(cell: RuntimeOccupancyCell) -> spec_fn(RuntimeOccupancyCell) -> bool {
    |e: RuntimeOccupancyCell| !occupant_conflict(cell)(e)
}

/// Whether `e` is the champion `occupant_id` on layer `layer`.
pub open spec fn champion_on_layer(layer: Seq<char>, occupant_id: Seq<char>) -> spec_fn(RuntimeOccupancyCell) -> bool {
    |e: RuntimeOccupancyCell|
        e.layer@ == layer && e.occupant_kind@ == "champion"@ && e.occupant_id_text@ == occupant_id
}

/// Cells that survive removing a champion occupant.
pub open spec fn not_champion_on_layer(layer: Seq<char>, occupant_id: Seq<char>) -> spec_fn(RuntimeOccupancyCell) -> bool {
    |e: RuntimeOccupancyCell| !champion_on_layer(layer, occupant_id)(e)
}

/// Removes from `v` every cell in conflict with `cell`.
fn remove_conflicting(v: &mut Vec<RuntimeOccupancyCell>, cell: &RuntimeOccupancyCell)
    ensures
        final(v)@ == old(v)@.filter(not_conflicting(*cell)),
{
    let ghost s0 = v@;
    let ghost keep = not_conflicting(*cell);
    let mut i: usize = 0;
    let ghost mut j: int = 0;
    proof {
        reveal(Seq::filter);
        assert(s0.take(0) =~= Seq::<RuntimeOccupancyCell>::empty());
        assert(s0.skip(0) =~= s0);
        assert(s0.take(0).filter(keep) =~= Seq::<RuntimeOccupancyCell>::empty());
    }
    while i < v.len()
        invariant
            0 <= j <= s0.len(),
            keep == not_conflicting(*cell),
            v@ == s0.take(j).filter(keep) + s0.skip(j),
            i == s0.take(j).filter(keep).len(),
        decreases s0.len() - j,
    {
        proof {
            assert(v@[i as int] == s0[j]);
            lemma_filter_take_step(s0, keep, j);
        }
        let conflict = {
            let e = &v[i];
            e.layer == cell.layer && ((e.x == cell.x && e.y == cell.y) || (e.occupant_kind
                == cell.occupant_kind && e.occupant_id_text == cell.occupant_id_text))
        };
        if conflict {
            v.remove(i);
        } else {
            i = i + 1;
        }
        proof {
            j = j + 1;
            assert(v@ =~= s0.take(j).filter(keep) + s0.skip(j));
        }
    }
    proof {
        assert(s0.skip(j).len() == 0);
        assert(j == s0.len());
        assert(s0.take(j) =~= s0);
        assert(v@ =~= s0.filter(keep));
    }
}

/// Removes the champion `occupant_id` from layer `layer`; returns whether
/// some cell was removed.
fn remove_champion_on_layer(v: &mut Vec<RuntimeOccupancyCell>, layer: &str, occupant_id: &str) -> (removed: bool)
    ensures
        final(v)@ == old(v)@.filter(not_champion_on_layer(layer@, occupant_id@)),
        removed == exists|k: int| 0 <= k < old(v)@.len() && champion_on_layer(layer@, occupant_id@)(#[trigger] old(v)@[k]),
{
    let ghost s0 = v@;
    let ghost keep = not_champion_on_layer(layer@, occupant_id@);
    let ghost hit = champion_on_layer(layer@, occupant_id@);
    let mut i: usize = 0;
    let mut removed = false;
    let ghost mut j: int = 0;
    proof {
        reveal(Seq::filter);
        assert(s0.take(0) =~= Seq::<RuntimeOccupancyCell>::empty());
        assert(s0.skip(0) =~= s0);
        assert(s0.take(0).filter(keep) =~= Seq::<RuntimeOccupancyCell>::empty());
    }
    while i < v.len()
        invariant
            0 <= j <= s0.len(),
            keep == not_champion_on_layer(layer@, occupant_id@),
            hit == champion_on_layer(layer@, occupant_id@),
            v@ == s0.take(j).filter(keep) + s0.skip(j),
            i == s0.take(j).filter(keep).len(),
            removed == exists|k: int| 0 <= k < j && hit(#[trigger] s0[k]),
        decreases s0.len() - j,
    {
        proof {
            assert(v@[i as int] == s0[j]);
            lemma_filter_take_step(s0, keep, j);
        }
        let champion = crate::text::str_eq(v[i].occupant_kind.as_str(), "champion");
        let matches = crate::text::str_eq(v[i].layer.as_str(), layer) && champion
            && crate::text::str_eq(v[i].occupant_id_text.as_str(), occupant_id);
        if matches {
            v.remove(i);
            removed = true;
        } else {
            i = i + 1;
        }
        proof {
            if matches {
                assert(hit(s0[j]));
            } else {
                assert(!hit(s0[j]));
                if exists|k: int| 0 <= k < j + 1 && hit(#[trigger] s0[k]) {
                    let k = choose|k: int| 0 <= k < j + 1 && hit(#[trigger] s0[k]);
                    assert(k < j);
                }
            }
            j = j + 1;
            assert(v@ =~= s0.take(j).filter(keep) + s0.skip(j));
        }
    }
    proof {
        assert(s0.skip(j).len() == 0);
        assert(j == s0.len());
        assert(s0.take(j) =~= s0);
        assert(v@ =~= s0.filter(keep));
    }
    removed
}

impl SessionTurnRuntime {
    /// Places a cell for its occupant: any cell of the same layer at the same
    /// place, or held by the same occupant, is dropped first.
    pub fn upsert_occupancy_for_occupant(&mut self, cell: RuntimeOccupancyCell, now_ms: u64)
        requires
            old(self).wf(),
        ensures
            final(self).wf(),
            final(self).occupancy_index@ == old(self).occupancy_index@.filter(not_conflicting(cell)).push(cell),
            final(self).dirty == (SessionTurnDirtySets { occupancy_index: true, ..old(self).dirty }),
            Self::same_except(old(self), final(self), RuntimePart::Occupancy),
            Self::recorded(old(self), final(self), ProjectionEntity::Occupancy, occupancy_key_spec(cell.layer@, cell.x, cell.y), ProjectionDirtyOp::Upsert, now_ms),
    {
        let ghost item = cell;
        let key = occupancy_projection_key(&cell);
        remove_conflicting(&mut self.occupancy_index, &cell);
        proof {
            let f = old(self).occupancy_index@.filter(not_conflicting(item));
            lemma_filter_keyed(old(self).occupancy_index@, not_conflicting(item));
            let g = f.push(item);
            assert forall|a: int, b: int| 0 <= a < g.len() && 0 <= b < g.len() && a != b implies #[trigger] g[a].key_view()
                != #[trigger] g[b].key_view() by {
                if a < f.len() && b < f.len() {
                    assert(g[a] == f[a] && g[b] == f[b]);
                } else if a < f.len() {
                    assert(g[a] == f[a]);
                    assert(not_conflicting(item)(f[a]));
                } else {
                    assert(g[b] == f[b]);
                    assert(not_conflicting(item)(f[b]));
                }
            }
        }
        self.occupancy_index.push(cell);
        self.dirty.occupancy_index = true;
        self.finish_change(ProjectionEntity::Occupancy, key, ProjectionDirtyOp::Upsert, now_ms);
    }

    /// Removes the champion `occupant_id_text` from layer `layer`; when a cell
    /// was removed, the removal is queued as a tombstone of
    /// `"{layer}:champion:{occupant_id_text}"`.
    pub fn remove_occupancy_for_occupant(&mut self, layer: &str, occupant_id_text: &str, now_ms: u64)
        requires
            old(self).wf(),
        ensures
            final(self).wf(),
            !(exists|k: int| 0 <= k < old(self).occupancy_index@.len() && champion_on_layer(layer@, occupant_id_text@)(#[trigger] old(self).occupancy_index@[k]))
                ==> Self::unchanged(old(self), final(self)),
            (exists|k: int| 0 <= k < old(self).occupancy_index@.len() && champion_on_layer(layer@, occupant_id_text@)(#[trigger] old(self).occupancy_index@[k]))
                ==> {
                &&& final(self).occupancy_index@ == old(self).occupancy_index@.filter(not_champion_on_layer(layer@, occupant_id_text@))
                &&& final(self).dirty == (SessionTurnDirtySets { occupancy_index: true, ..old(self).dirty })
                &&& Self::same_except(old(self), final(self), RuntimePart::Occupancy)
                &&& Self::recorded(old(self), final(self), ProjectionEntity::Occupancy, layer@ + ":champion:"@ + occupant_id_text@, ProjectionDirtyOp::Tombstone, now_ms)
            },
    {
        let ghost s0 = self.occupancy_index@;
        let removed = remove_champion_on_layer(&mut self.occupancy_index, layer, occupant_id_text);
        proof {
            lemma_filter_keyed(s0, not_champion_on_layer(layer@, occupant_id_text@));
            if !removed {
                crate::seqs::lemma_filter_all(s0, not_champion_on_layer(layer@, occupant_id_text@));
                assert(self.occupancy_index@ == s0);
            }
        }
        if removed {
            let mut key = String::new();
            push_str(&mut key, layer);
            push_str(&mut key, ":champion:");
            push_str(&mut key, occupant_id_text);
            proof {
                assert(key@ =~= layer@ + ":champion:"@ + occupant_id_text@);
            }
            self.dirty.occupancy_index = true;
            self.finish_change(ProjectionEntity::Occupancy, key, ProjectionDirtyOp::Tombstone, now_ms);
        } else {
            proof {
                assert(self.occupancy_index@ =~= s0);
            }
        }
    }
}

/// Readiness of the active participants of a turn.
pub struct RuntimeReadinessCounts {
    pub ready_count: usize,
    pub participant_count: usize,
    pub all_ready: bool,
}

/// Whether a participant takes part in the turn.
pub open spec fn is_active(p: SessionTurnParticipant) -> bool {
    p.status@ == "active"@
}

/// Number of active participants.
pub open spec fn active_count(s: Seq<SessionTurnParticipant>) -> nat
    decreases s.len(),
{
    if s.len() == 0 {
        0
    } else {
        active_count(s.drop_last()) + if is_active(s.last()) { 1nat } else { 0nat }
    }
}

/// Number of active participants whose id is in `ready`.
pub open spec fn ready_active_count(s: Seq<SessionTurnParticipant>, ready: Seq<String>) -> nat
    decreases s.len(),
{
    if s.len() == 0 {
        0
    } else {
        ready_active_count(s.drop_last(), ready) + if is_active(s.last()) && strings_contain(
            ready,
            s.last().participant_id@,
        ) {
            1nat
        } else {
            0nat
        }
    }
}

/// Whether `r` answers the command with nonce `nonce` of `actor`.
pub open spec fn receipt_for_nonce(actor: Seq<char>, nonce: u64) -> spec_fn(SessionTurnCommandReceipt) -> bool {
    |r: SessionTurnCommandReceipt| r.actor_participant_id@ == actor && r.client_nonce == nonce
}

impl SessionTurnRuntime {
    /// Appends an event raised during the turn.
    pub fn push_event(&mut self, event: SessionTurnEvent, now_ms: u64)
        requires
            old(self).wf(),
        ensures
            final(self).wf(),
            final(self).active_events@ == old(self).active_events@.push(event),
            final(self).dirty == (SessionTurnDirtySets { events: true, ..old(self).dirty }),
            Self::same_except(old(self), final(self), RuntimePart::Events),
            Self::recorded(old(self), final(self), ProjectionEntity::Event, event.event.event_key@, ProjectionDirtyOp::Upsert, now_ms),
    {
        let key = event.event.event_key.clone();
        self.active_events.push(event);
        self.dirty.events = true;
        self.finish_change(ProjectionEntity::Event, key, ProjectionDirtyOp::Upsert, now_ms);
    }

    /// Appends a resource change.
    pub fn push_resource_delta(&mut self, delta: ResourceTurnDelta, now_ms: u64)
        requires
            old(self).wf(),
        ensures
            final(self).wf(),
            final(self).resource_deltas@ == old(self).resource_deltas@.push(delta),
            final(self).dirty == (SessionTurnDirtySets { resource_deltas: true, ..old(self).dirty }),
            Self::same_except(old(self), final(self), RuntimePart::ResourceDeltas),
            Self::recorded(old(self), final(self), ProjectionEntity::ResourceDelta, resource_delta_key_spec(delta), ProjectionDirtyOp::Upsert, now_ms),
    {
        let key = resource_delta_projection_key(&delta);
        self.resource_deltas.push(delta);
        self.dirty.resource_deltas = true;
        self.finish_change(ProjectionEntity::ResourceDelta, key, ProjectionDirtyOp::Upsert, now_ms);
    }

    /// Appends a change of a map subject; the cached count of completed
    /// central objectives is forgotten.
    pub fn push_object_delta(&mut self, delta: ObjectTurnDelta, now_ms: u64)
        requires
            old(self).wf(),
        ensures
            final(self).wf(),
            final(self).object_deltas@ == old(self).object_deltas@.push(delta),
            final(self).central_objectives_completed is None,
            final(self).dirty == (SessionTurnDirtySets { object_deltas: true, ..old(self).dirty }),
            Self::same_except(old(self), final(self), RuntimePart::ObjectDeltas),
            Self::recorded(old(self), final(self), ProjectionEntity::ObjectDelta, delta.subject_kind@ + seq![':'] + delta.subject_id@, ProjectionDirtyOp::Upsert, now_ms),
    {
        let mut key = String::new();
        push_str(&mut key, delta.subject_kind.as_str());
        push_char(&mut key, ':');
        push_str(&mut key, delta.subject_id.as_str());
        proof {
            assert(key@ =~= delta.subject_kind@ + seq![':'] + delta.subject_id@);
        }
        self.central_objectives_completed = None;
        self.object_deltas.push(delta);
        self.dirty.object_deltas = true;
        self.finish_change(ProjectionEntity::ObjectDelta, key, ProjectionDirtyOp::Upsert, now_ms);
    }

    /// Readiness of the active participants, once both the participants and
    /// the ready rows are fully loaded; all are ready when there is at least
    /// one active participant and every one of them is ready.
    pub fn readiness_counts(&self) -> (counts: Option<RuntimeReadinessCounts>)
        ensures
            counts is Some <==> self.participants_complete && self.ready_complete,
            counts matches Some(c) ==> {
                &&& c.participant_count == active_count(self.participants@)
                &&& c.ready_count == ready_active_count(self.participants@, self.ready_participants@)
                &&& c.all_ready == (c.participant_count != 0 && c.ready_count >= c.participant_count)
            },
    {
        if !self.participants_complete || !self.ready_complete {
            return None;
        }
        let n = self.participants.len();
        let mut participant_count: usize = 0;
        let mut ready_count: usize = 0;
        let mut i: usize = 0;
        while i < n
            invariant
                n == self.participants@.len(),
                i <= n,
                participant_count == active_count(self.participants@.take(i as int)),
                ready_count == ready_active_count(self.participants@.take(i as int), self.ready_participants@),
                ready_count <= participant_count <= i,
            decreases n - i,
        {
            let p = &self.participants[i];
            let active = crate::text::str_eq(p.status.as_str(), "active");
            let ready = active && contains_string(&self.ready_participants, &p.participant_id);
            if active {
                participant_count = participant_count + 1;
                if ready {
                    ready_count = ready_count + 1;
                }
            }
            proof {
                let t = self.participants@.take(i as int + 1);
                assert(t.drop_last() =~= self.participants@.take(i as int));
                assert(t.last() == self.participants@[i as int]);
            }
            i = i + 1;
        }
        proof {
            assert(self.participants@.take(n as int) =~= self.participants@);
        }
        Some(
            RuntimeReadinessCounts {
                ready_count,
                participant_count,
                all_ready: participant_count != 0 && ready_count >= participant_count,
            },
        )
    }

    /// The first receipt stored for `actor_participant_id`'s command with
    /// nonce `client_nonce`.
    pub fn command_receipt_by_nonce(&self, actor_participant_id: &str, client_nonce: u64) -> (found: Option<&SessionTurnCommandReceipt>)
        ensures
            ({
                let i = find_first(self.command_receipts@, receipt_for_nonce(actor_participant_id@, client_nonce));
                match found {
                    Some(r) => i >= 0 && *r == self.command_receipts@[i],
                    None => i == -1,
                }
            }),
    {
        let ghost p = receipt_for_nonce(actor_participant_id@, client_nonce);
        let n = self.command_receipts.len();
        let mut i: usize = 0;
        while i < n
            invariant
                n == self.command_receipts@.len(),
                i <= n,
                p == receipt_for_nonce(actor_participant_id@, client_nonce),
                forall|j: int| 0 <= j < i ==> !p(#[trigger] self.command_receipts@[j]),
            decreases n - i,
        {
            let r = &self.command_receipts[i];
            if crate::text::str_eq(r.actor_participant_id.as_str(), actor_participant_id) && r.client_nonce == client_nonce {
                proof {
                    crate::seqs::lemma_find_first_is(self.command_receipts@, p, i as int);
                }
                return Some(r);
            }
            i = i + 1;
        }
        proof {
            crate::seqs::lemma_find_first_none(self.command_receipts@, p);
        }
        None
    }
}

impl SessionTurnDirtySets {
    /// Nothing changed.
    pub open spec fn clean_spec() -> Self {
        SessionTurnDirtySets {
            participants: false,
            ready: false,
            champion_snapshots: false,
            champion_spell_snapshots: false,
            world_object_snapshots: false,
            occupancy_index: false,
            contact_index: false,
            intents: false,
            command_receipts: false,
            events: false,
            object_deltas: false,
            resource_deltas: false,
            quest_snapshots: false,
            scenario_rule_snapshots: false,
            cursor: false,
        }
    }
}

} // verus!
