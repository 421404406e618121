//! Carrying what an earlier turn's runtime knew into the runtime of a later
//! turn of the same session.
use vstd::prelude::*;
use crate::runtime::{
    insert_string, merged_participant, next_generation, not_conflicting, strings_contain,
    RuntimePart, SessionTurnRuntime,
};
use crate::runtime_types::{
    ChampionSnapshot, RuntimeChampionSpell, RuntimeContactCell, RuntimeOccupancyCell,
    SessionTurnDirtySets, SessionTurnParticipant, WorldObjectSnapshot,
};
use crate::seqs::{lemma_filter_take_step, upserted, Keyed};
use crate::dup::Duplicate;
use crate::text::str_eq;

verus! {

/// `s` after upserting each of `items` in turn.
pub open spec fn upsert_all<T: Keyed>(s: Seq<T>, items: Seq<T>) -> Seq<T>
    decreases items.len(),
{
    if items.len() == 0 {
        s
    } else {
        upserted(upsert_all(s, items.drop_last()), items.last())
    }
}

/// The participants `s` after upserting each of `items` in turn, each one
/// keeping a principal already known for it.
pub open spec fn merge_all(
    s: Seq<SessionTurnParticipant>,
    items: Seq<SessionTurnParticipant>,
) -> Seq<SessionTurnParticipant>
    decreases items.len(),
{
    if items.len() == 0 {
        s
    } else {
        let acc = merge_all(s, items.drop_last());
        upserted(acc, merged_participant(acc, items.last()))
    }
}

/// Whether a participant is still playing.
pub open spec fn active_participant() -> spec_fn(SessionTurnParticipant) -> bool {
    |p: SessionTurnParticipant| p.status@ == "active"@
}

/// The occupancy index after placing one carried cell: a champion cell
/// first drops the cells it conflicts with, any other cell is upserted.
pub open spec fn place_cell(s: Seq<RuntimeOccupancyCell>, cell: RuntimeOccupancyCell) -> Seq<
    RuntimeOccupancyCell,
> {
    if cell.layer@ == "champion"@ {
        s.filter(not_conflicting(cell)).push(cell)
    } else {
        upserted(s, cell)
    }
}

/// The occupancy index after placing each of `cells` in turn.
pub open spec fn place_all(s: Seq<RuntimeOccupancyCell>, cells: Seq<RuntimeOccupancyCell>) -> Seq<
    RuntimeOccupancyCell,
>
    decreases cells.len(),
{
    if cells.len() == 0 {
        s
    } else {
        place_cell(place_all(s, cells.drop_last()), cells.last())
    }
}

/// `s` with `x` added unless a string with the same characters is there.
pub open spec fn add_string(s: Seq<String>, x: String) -> Seq<String> {
    if strings_contain(s, x@) {
        s
    } else {
        s.push(x)
    }
}

/// `s` after adding each of `xs` in turn.
pub open spec fn add_all(s: Seq<String>, xs: Seq<String>) -> Seq<String>
    decreases xs.len(),
{
    if xs.len() == 0 {
        s
    } else {
        add_string(add_all(s, xs.drop_last()), xs.last())
    }
}

/// The champions whose spells are listed, in order.
pub open spec fn spell_owners(spells: Seq<RuntimeChampionSpell>) -> Seq<String> {
    spells.map_values(|sp: RuntimeChampionSpell| sp.champion_id)
}

/// The generation `g` after `n` more changes, saturating at `u64::MAX`.
pub open spec fn advanced(g: u64, n: nat) -> u64 {
    if g + n <= u64::MAX {
        (g + n) as u64
    } else {
        u64::MAX
    }
}

/// Number of changes recorded while carrying part `k` of `prev` (parts in
/// order: active participants, champions, spells, complete spellbooks,
/// world objects, occupancy, contacts).
pub open spec fn part_len(prev: SessionTurnRuntime, k: int) -> nat {
    if k == 0 {
        prev.participants@.filter(active_participant()).len()
    } else if k == 1 {
        prev.champion_snapshots@.len()
    } else if k == 2 {
        prev.champion_spell_snapshots@.len()
    } else if k == 4 {
        prev.world_object_snapshots@.len()
    } else if k == 5 {
        prev.occupancy_index@.len()
    } else if k == 6 {
        prev.contact_index@.len()
    } else {
        0
    }
}

/// Changes recorded by the parts before part `k`.
pub open spec fn parts_done(prev: SessionTurnRuntime, k: int) -> nat
    decreases k,
{
    if k <= 0 {
        0
    } else {
        parts_done(prev, k - 1) + part_len(prev, k - 1)
    }
}

/// Changes recorded by the first `i` items of part `k`.
pub open spec fn part_progress(prev: SessionTurnRuntime, k: int, i: int) -> nat {
    if k == 0 {
        prev.participants@.take(i).filter(active_participant()).len()
    } else if k == 3 {
        0
    } else {
        i as nat
    }
}

/// Whether part `k` has recorded a change by the time part `stage` has
/// handled `i` items.
pub open spec fn touched(prev: SessionTurnRuntime, k: int, stage: int, i: int) -> bool {
    if k < stage {
        part_len(prev, k) > 0
    } else if k == stage {
        part_progress(prev, k, i) > 0
    } else {
        false
    }
}

/// The dirty flags `d` once part `stage` has handled `i` items.
pub open spec fn dirty_after(d: SessionTurnDirtySets, prev: SessionTurnRuntime, stage: int, i: int) -> SessionTurnDirtySets {
    SessionTurnDirtySets {
        participants: d.participants || touched(prev, 0, stage, i),
        champion_snapshots: d.champion_snapshots || touched(prev, 1, stage, i),
        champion_spell_snapshots: d.champion_spell_snapshots || touched(prev, 2, stage, i),
        world_object_snapshots: d.world_object_snapshots || touched(prev, 4, stage, i),
        occupancy_index: d.occupancy_index || touched(prev, 5, stage, i),
        contact_index: d.contact_index || touched(prev, 6, stage, i),
        ..d
    }
}

impl SessionTurnRuntime {
    /// `b` keeps every field of `a` that carrying does not touch.
    pub open spec fn kept_by_carry(a: &Self, b: &Self) -> bool {
        &&& a.session_id == b.session_id
        &&& a.turn_number == b.turn_number
        &&& a.turn_started_at_ms == b.turn_started_at_ms
        &&& a.turn_deadline_at_ms == b.turn_deadline_at_ms
        &&& a.turn_duration_ms == b.turn_duration_ms
        &&& a.closing == b.closing
        &&& a.event_seq_block == b.event_seq_block
        &&& a.partial_cursor == b.partial_cursor
        &&& a.central_objectives_completed == b.central_objectives_completed
        &&& a.ready_participants@ == b.ready_participants@
        &&& a.quest_snapshots@ == b.quest_snapshots@
        &&& a.scenario_rule_snapshots@ == b.scenario_rule_snapshots@
        &&& a.intents@ == b.intents@
        &&& a.command_receipts@ == b.command_receipts@
        &&& a.active_events@ == b.active_events@
        &&& a.object_deltas@ == b.object_deltas@
        &&& a.resource_deltas@ == b.resource_deltas@
    }

    /// `b` is `a` once the state of `prev` was carried into it.
    pub open spec fn carried(a: &Self, prev: &Self, b: &Self) -> bool {
        &&& Self::kept_by_carry(a, b)
        &&& b.participants@ == merge_all(a.participants@, prev.participants@.filter(active_participant()))
        &&& b.champion_snapshots@ == upsert_all(a.champion_snapshots@, prev.champion_snapshots@)
        &&& b.champion_spell_snapshots@ == upsert_all(a.champion_spell_snapshots@, prev.champion_spell_snapshots@)
        &&& b.complete_champion_spellbooks@ == add_all(
            add_all(a.complete_champion_spellbooks@, spell_owners(prev.champion_spell_snapshots@)),
            prev.complete_champion_spellbooks@,
        )
        &&& b.world_object_snapshots@ == upsert_all(a.world_object_snapshots@, prev.world_object_snapshots@)
        &&& b.occupancy_index@ == place_all(a.occupancy_index@, prev.occupancy_index@)
        &&& b.contact_index@ == upsert_all(a.contact_index@, prev.contact_index@)
        &&& b.participants_complete == prev.participants_complete
        &&& b.ready_complete == prev.participants_complete
        &&& b.dirty == dirty_after(a.dirty, *prev, 7, 0)
        &&& b.generation == advanced(a.generation, parts_done(*prev, 7))
    }

    /// `b` is `a` once part `stage` of carrying `prev` has handled its first
    /// `i` items (all earlier parts done, later parts untouched).
    #[verifier::opaque]
    pub open spec fn carry_at(a: &Self, prev: &Self, b: &Self, stage: int, i: int) -> bool {
        let pp = prev.participants@;
        let pc = prev.champion_snapshots@;
        let ps = prev.champion_spell_snapshots@;
        let pb = prev.complete_champion_spellbooks@;
        let po = prev.world_object_snapshots@;
        let pn = prev.occupancy_index@;
        let pt = prev.contact_index@;
        &&& Self::kept_by_carry(a, b)
        &&& b.participants@ == (if stage > 0 {
            merge_all(a.participants@, pp.filter(active_participant()))
        } else {
            merge_all(a.participants@, pp.take(i).filter(active_participant()))
        })
        &&& b.champion_snapshots@ == (if stage > 1 {
            upsert_all(a.champion_snapshots@, pc)
        } else if stage == 1 {
            upsert_all(a.champion_snapshots@, pc.take(i))
        } else {
            a.champion_snapshots@
        })
        &&& b.champion_spell_snapshots@ == (if stage > 2 {
            upsert_all(a.champion_spell_snapshots@, ps)
        } else if stage == 2 {
            upsert_all(a.champion_spell_snapshots@, ps.take(i))
        } else {
            a.champion_spell_snapshots@
        })
        &&& b.complete_champion_spellbooks@ == (if stage > 3 {
            add_all(add_all(a.complete_champion_spellbooks@, spell_owners(ps)), pb)
        } else if stage == 3 {
            add_all(add_all(a.complete_champion_spellbooks@, spell_owners(ps)), pb.take(i))
        } else if stage == 2 {
            add_all(a.complete_champion_spellbooks@, spell_owners(ps.take(i)))
        } else {
            a.complete_champion_spellbooks@
        })
        &&& b.world_object_snapshots@ == (if stage > 4 {
            upsert_all(a.world_object_snapshots@, po)
        } else if stage == 4 {
            upsert_all(a.world_object_snapshots@, po.take(i))
        } else {
            a.world_object_snapshots@
        })
        &&& b.occupancy_index@ == (if stage > 5 {
            place_all(a.occupancy_index@, pn)
        } else if stage == 5 {
            place_all(a.occupancy_index@, pn.take(i))
        } else {
            a.occupancy_index@
        })
        &&& b.contact_index@ == (if stage > 6 {
            upsert_all(a.contact_index@, pt)
        } else if stage == 6 {
            upsert_all(a.contact_index@, pt.take(i))
        } else {
            a.contact_index@
        })
        &&& b.participants_complete == a.participants_complete
        &&& b.ready_complete == a.ready_complete
        &&& b.dirty == dirty_after(a.dirty, *prev, stage, i)
        &&& b.generation == advanced(a.generation, parts_done(*prev, stage) + part_progress(*prev, stage, i))
    }

    /// Carries the state of `previous`, an earlier turn of the session, into
    /// this runtime: its active participants, champions, learned spells,
    /// complete spellbooks, world objects, occupancy (a champion cell first
    /// drops the cells it conflicts with) and contacts, each upserted in
    /// order as a recorded change; the participant and ready sets are
    /// complete exactly when they were complete in `previous`.
    pub fn carry_forward_runtime_state(&mut self, previous: &SessionTurnRuntime, now_ms: u64)
        requires
            old(self).wf(),
        ensures
            final(self).wf(),
            Self::carried(old(self), previous, final(self)),
    {
        let ghost s0 = *self;
        proof { lemma_carry_start(s0, *previous); }
        let mut i: usize = 0;
        while i < previous.participants.len()
            invariant
                0 <= i <= previous.participants@.len(),
                self.wf(),
                Self::carry_at(&s0, previous, self, 0, i as int),
            decreases previous.participants@.len() - i,
        {
            let ghost before = *self;
            if str_eq(previous.participants[i].status.as_str(), "active") {
                let p = previous.participants[i].duplicate();
                self.upsert_participant(p, now_ms);
            }
            proof { lemma_step_participant(s0, *previous, before, *self, i as int); }
            i = i + 1;
        }
        proof { lemma_carry_next_stage(s0, *previous, *self, 0); }
        let mut i: usize = 0;
        while i < previous.champion_snapshots.len()
            invariant
                0 <= i <= previous.champion_snapshots@.len(),
                self.wf(),
                Self::carry_at(&s0, previous, self, 1, i as int),
            decreases previous.champion_snapshots@.len() - i,
        {
            let ghost before = *self;
            let c = previous.champion_snapshots[i].duplicate();
            self.upsert_champion_snapshot(c, now_ms);
            proof { lemma_step_champion(s0, *previous, before, *self, i as int); }
            i = i + 1;
        }
        proof { lemma_carry_next_stage(s0, *previous, *self, 1); }
        let mut i: usize = 0;
        while i < previous.champion_spell_snapshots.len()
            invariant
                0 <= i <= previous.champion_spell_snapshots@.len(),
                self.wf(),
                Self::carry_at(&s0, previous, self, 2, i as int),
            decreases previous.champion_spell_snapshots@.len() - i,
        {
            let ghost before = *self;
            let sp = previous.champion_spell_snapshots[i].duplicate();
            self.upsert_champion_spell_snapshot(sp, now_ms);
            proof { lemma_step_spell(s0, *previous, before, *self, i as int); }
            i = i + 1;
        }
        proof { lemma_carry_next_stage(s0, *previous, *self, 2); }
        let mut i: usize = 0;
        while i < previous.complete_champion_spellbooks.len()
            invariant
                0 <= i <= previous.complete_champion_spellbooks@.len(),
                self.wf(),
                Self::carry_at(&s0, previous, self, 3, i as int),
            decreases previous.complete_champion_spellbooks@.len() - i,
        {
            let ghost before = *self;
            let id = previous.complete_champion_spellbooks[i].clone();
            insert_string(&mut self.complete_champion_spellbooks, id);
            proof { lemma_step_spellbook(s0, *previous, before, *self, i as int); }
            i = i + 1;
        }
        proof { lemma_carry_next_stage(s0, *previous, *self, 3); }
        let mut i: usize = 0;
        while i < previous.world_object_snapshots.len()
            invariant
                0 <= i <= previous.world_object_snapshots@.len(),
                self.wf(),
                Self::carry_at(&s0, previous, self, 4, i as int),
            decreases previous.world_object_snapshots@.len() - i,
        {
            let ghost before = *self;
            let o = previous.world_object_snapshots[i].duplicate();
            self.upsert_world_object_snapshot(o, now_ms);
            proof { lemma_step_object(s0, *previous, before, *self, i as int); }
            i = i + 1;
        }
        proof { lemma_carry_next_stage(s0, *previous, *self, 4); }
        let mut i: usize = 0;
        while i < previous.occupancy_index.len()
            invariant
                0 <= i <= previous.occupancy_index@.len(),
                self.wf(),
                Self::carry_at(&s0, previous, self, 5, i as int),
            decreases previous.occupancy_index@.len() - i,
        {
            let ghost before = *self;
            let cell = previous.occupancy_index[i].duplicate();
            self.place_carried_cell(cell, now_ms);
            proof { lemma_step_occupancy(s0, *previous, before, *self, i as int); }
            i = i + 1;
        }
        proof { lemma_carry_next_stage(s0, *previous, *self, 5); }
        let mut i: usize = 0;
        while i < previous.contact_index.len()
            invariant
                0 <= i <= previous.contact_index@.len(),
                self.wf(),
                Self::carry_at(&s0, previous, self, 6, i as int),
            decreases previous.contact_index@.len() - i,
        {
            let ghost before = *self;
            let cell = previous.contact_index[i].duplicate();
            self.upsert_contact_cell(cell, now_ms);
            proof { lemma_step_contact(s0, *previous, before, *self, i as int); }
            i = i + 1;
        }
        proof { lemma_carry_next_stage(s0, *previous, *self, 6); }
        let ghost b = *self;
        self.participants_complete = previous.participants_complete;
        self.ready_complete = previous.participants_complete;
        proof { lemma_carry_done(s0, *previous, b, *self); }
    }
}

impl SessionTurnRuntime {
    /// Places one carried occupancy cell (see `place_cell`).
    fn place_carried_cell(&mut self, cell: RuntimeOccupancyCell, now_ms: u64)
        requires
            old(self).wf(),
        ensures
            final(self).wf(),
            final(self).occupancy_index@ == place_cell(old(self).occupancy_index@, cell),
            final(self).dirty == (SessionTurnDirtySets { occupancy_index: true, ..old(self).dirty }),
            Self::same_except(old(self), final(self), RuntimePart::Occupancy),
            final(self).generation == next_generation(old(self).generation),
    {
        if str_eq(cell.layer.as_str(), "champion") {
            self.upsert_occupancy_for_occupant(cell, now_ms);
        } else {
            self.upsert_occupancy_cell(cell, now_ms);
        }
    }
}

/// Number of items of part `k` of `prev` that carrying walks through.
pub open spec fn part_items(prev: SessionTurnRuntime, k: int) -> nat {
    if k == 0 {
        prev.participants@.len()
    } else if k == 1 {
        prev.champion_snapshots@.len()
    } else if k == 2 {
        prev.champion_spell_snapshots@.len()
    } else if k == 3 {
        prev.complete_champion_spellbooks@.len()
    } else if k == 4 {
        prev.world_object_snapshots@.len()
    } else if k == 5 {
        prev.occupancy_index@.len()
    } else if k == 6 {
        prev.contact_index@.len()
    } else {
        0
    }
}

proof fn lemma_carry_start(a: SessionTurnRuntime, prev: SessionTurnRuntime)
    ensures
        SessionTurnRuntime::carry_at(&a, &prev, &a, 0, 0),
{
    reveal(SessionTurnRuntime::carry_at);
    let pp = prev.participants@;
    assert(pp.take(0) =~= Seq::<SessionTurnParticipant>::empty());
    assert(pp.take(0).filter(active_participant()) =~= Seq::<SessionTurnParticipant>::empty());
    assert(a.dirty == dirty_after(a.dirty, prev, 0, 0));
}

proof fn lemma_carry_next_stage(a: SessionTurnRuntime, prev: SessionTurnRuntime, b: SessionTurnRuntime, k: int)
    requires
        0 <= k < 7,
        SessionTurnRuntime::carry_at(&a, &prev, &b, k, part_items(prev, k) as int),
    ensures
        SessionTurnRuntime::carry_at(&a, &prev, &b, k + 1, 0),
{
    reveal(SessionTurnRuntime::carry_at);
    assert(prev.participants@.take(prev.participants@.len() as int) =~= prev.participants@);
    assert(prev.champion_snapshots@.take(prev.champion_snapshots@.len() as int) =~= prev.champion_snapshots@);
    assert(prev.champion_snapshots@.take(0) =~= Seq::<ChampionSnapshot>::empty());
    assert(prev.champion_spell_snapshots@.take(prev.champion_spell_snapshots@.len() as int) =~= prev.champion_spell_snapshots@);
    assert(prev.champion_spell_snapshots@.take(0) =~= Seq::<RuntimeChampionSpell>::empty());
    assert(spell_owners(prev.champion_spell_snapshots@.take(0)) =~= Seq::<String>::empty());
    assert(prev.complete_champion_spellbooks@.take(prev.complete_champion_spellbooks@.len() as int) =~= prev.complete_champion_spellbooks@);
    assert(prev.complete_champion_spellbooks@.take(0) =~= Seq::<String>::empty());
    assert(prev.world_object_snapshots@.take(prev.world_object_snapshots@.len() as int) =~= prev.world_object_snapshots@);
    assert(prev.world_object_snapshots@.take(0) =~= Seq::<WorldObjectSnapshot>::empty());
    assert(prev.occupancy_index@.take(prev.occupancy_index@.len() as int) =~= prev.occupancy_index@);
    assert(prev.occupancy_index@.take(0) =~= Seq::<RuntimeOccupancyCell>::empty());
    assert(prev.contact_index@.take(prev.contact_index@.len() as int) =~= prev.contact_index@);
    assert(prev.contact_index@.take(0) =~= Seq::<RuntimeContactCell>::empty());
    assert(part_progress(prev, k, part_items(prev, k) as int) == part_len(prev, k));
    assert(parts_done(prev, k + 1) == parts_done(prev, k) + part_len(prev, k));
    assert(dirty_after(a.dirty, prev, k, part_items(prev, k) as int) == dirty_after(a.dirty, prev, k + 1, 0));
}

proof fn lemma_carry_done(a: SessionTurnRuntime, prev: SessionTurnRuntime, b: SessionTurnRuntime, c: SessionTurnRuntime)
    requires
        SessionTurnRuntime::carry_at(&a, &prev, &b, 7, 0),
        c == (SessionTurnRuntime {
            participants_complete: prev.participants_complete,
            ready_complete: prev.participants_complete,
            ..b
        }),
    ensures
        SessionTurnRuntime::carried(&a, &prev, &c),
{
    reveal(SessionTurnRuntime::carry_at);
}

proof fn lemma_step_participant(a: SessionTurnRuntime, prev: SessionTurnRuntime, before: SessionTurnRuntime, after: SessionTurnRuntime, i: int)
    requires
        0 <= i < prev.participants@.len(),
        SessionTurnRuntime::carry_at(&a, &prev, &before, 0, i),
        active_participant()(prev.participants@[i]) ==> {
            &&& after.participants@ == upserted(before.participants@, merged_participant(before.participants@, prev.participants@[i]))
            &&& after.dirty == (SessionTurnDirtySets { participants: true, ..before.dirty })
            &&& SessionTurnRuntime::same_except(&before, &after, RuntimePart::Participants)
            &&& after.generation == next_generation(before.generation)
        },
        !active_participant()(prev.participants@[i]) ==> after == before,
    ensures
        SessionTurnRuntime::carry_at(&a, &prev, &after, 0, i + 1),
{
    reveal(SessionTurnRuntime::carry_at);
    let pp = prev.participants@;
    lemma_filter_take_step(pp, active_participant(), i);
    let f = pp.take(i).filter(active_participant());
    assert(f.push(pp[i]).drop_last() =~= f);
}

proof fn lemma_step_champion(a: SessionTurnRuntime, prev: SessionTurnRuntime, before: SessionTurnRuntime, after: SessionTurnRuntime, i: int)
    requires
        0 <= i < prev.champion_snapshots@.len(),
        SessionTurnRuntime::carry_at(&a, &prev, &before, 1, i),
        after.champion_snapshots@ == upserted(before.champion_snapshots@, prev.champion_snapshots@[i]),
        after.dirty == (SessionTurnDirtySets { champion_snapshots: true, ..before.dirty }),
        SessionTurnRuntime::same_except(&before, &after, RuntimePart::Champions),
        after.generation == next_generation(before.generation),
    ensures
        SessionTurnRuntime::carry_at(&a, &prev, &after, 1, i + 1),
{
    reveal(SessionTurnRuntime::carry_at);
    let pc = prev.champion_snapshots@;
    assert(pc.take(i + 1).drop_last() =~= pc.take(i));
}

proof fn lemma_step_spell(a: SessionTurnRuntime, prev: SessionTurnRuntime, before: SessionTurnRuntime, after: SessionTurnRuntime, i: int)
    requires
        0 <= i < prev.champion_spell_snapshots@.len(),
        SessionTurnRuntime::carry_at(&a, &prev, &before, 2, i),
        after.champion_spell_snapshots@ == upserted(before.champion_spell_snapshots@, prev.champion_spell_snapshots@[i]),
        after.complete_champion_spellbooks@ == add_string(before.complete_champion_spellbooks@, prev.champion_spell_snapshots@[i].champion_id),
        after.dirty == (SessionTurnDirtySets { champion_spell_snapshots: true, ..before.dirty }),
        SessionTurnRuntime::same_except(&before, &after, RuntimePart::ChampionSpells),
        after.generation == next_generation(before.generation),
    ensures
        SessionTurnRuntime::carry_at(&a, &prev, &after, 2, i + 1),
{
    reveal(SessionTurnRuntime::carry_at);
    let ps = prev.champion_spell_snapshots@;
    assert(ps.take(i + 1).drop_last() =~= ps.take(i));
    assert(spell_owners(ps.take(i + 1)) =~= spell_owners(ps.take(i)).push(ps[i].champion_id));
    assert(spell_owners(ps.take(i + 1)).drop_last() =~= spell_owners(ps.take(i)));
}

proof fn lemma_step_spellbook(a: SessionTurnRuntime, prev: SessionTurnRuntime, before: SessionTurnRuntime, after: SessionTurnRuntime, i: int)
    requires
        0 <= i < prev.complete_champion_spellbooks@.len(),
        SessionTurnRuntime::carry_at(&a, &prev, &before, 3, i),
        after.complete_champion_spellbooks@ == add_string(before.complete_champion_spellbooks@, prev.complete_champion_spellbooks@[i]),
        after == (SessionTurnRuntime { complete_champion_spellbooks: after.complete_champion_spellbooks, ..before }),
    ensures
        SessionTurnRuntime::carry_at(&a, &prev, &after, 3, i + 1),
{
    reveal(SessionTurnRuntime::carry_at);
    let pb = prev.complete_champion_spellbooks@;
    assert(pb.take(i + 1).drop_last() =~= pb.take(i));
}

proof fn lemma_step_object(a: SessionTurnRuntime, prev: SessionTurnRuntime, before: SessionTurnRuntime, after: SessionTurnRuntime, i: int)
    requires
        0 <= i < prev.world_object_snapshots@.len(),
        SessionTurnRuntime::carry_at(&a, &prev, &before, 4, i),
        after.world_object_snapshots@ == upserted(before.world_object_snapshots@, prev.world_object_snapshots@[i]),
        after.dirty == (SessionTurnDirtySets { world_object_snapshots: true, ..before.dirty }),
        SessionTurnRuntime::same_except(&before, &after, RuntimePart::WorldObjects),
        after.generation == next_generation(before.generation),
    ensures
        SessionTurnRuntime::carry_at(&a, &prev, &after, 4, i + 1),
{
    reveal(SessionTurnRuntime::carry_at);
    let po = prev.world_object_snapshots@;
    assert(po.take(i + 1).drop_last() =~= po.take(i));
}

proof fn lemma_step_occupancy(a: SessionTurnRuntime, prev: SessionTurnRuntime, before: SessionTurnRuntime, after: SessionTurnRuntime, i: int)
    requires
        0 <= i < prev.occupancy_index@.len(),
        SessionTurnRuntime::carry_at(&a, &prev, &before, 5, i),
        after.occupancy_index@ == place_cell(before.occupancy_index@, prev.occupancy_index@[i]),
        after.dirty == (SessionTurnDirtySets { occupancy_index: true, ..before.dirty }),
        SessionTurnRuntime::same_except(&before, &after, RuntimePart::Occupancy),
        after.generation == next_generation(before.generation),
    ensures
        SessionTurnRuntime::carry_at(&a, &prev, &after, 5, i + 1),
{
    reveal(SessionTurnRuntime::carry_at);
    let pn = prev.occupancy_index@;
    assert(pn.take(i + 1).drop_last() =~= pn.take(i));
}

proof fn lemma_step_contact(a: SessionTurnRuntime, prev: SessionTurnRuntime, before: SessionTurnRuntime, after: SessionTurnRuntime, i: int)
    requires
        0 <= i < prev.contact_index@.len(),
        SessionTurnRuntime::carry_at(&a, &prev, &before, 6, i),
        after.contact_index@ == upserted(before.contact_index@, prev.contact_index@[i]),
        after.dirty == (SessionTurnDirtySets { contact_index: true, ..before.dirty }),
        SessionTurnRuntime::same_except(&before, &after, RuntimePart::Contacts),
        after.generation == next_generation(before.generation),
    ensures
        SessionTurnRuntime::carry_at(&a, &prev, &after, 6, i + 1),
{
    reveal(SessionTurnRuntime::carry_at);
    let pt = prev.contact_index@;
    assert(pt.take(i + 1).drop_last() =~= pt.take(i));
}

} // verus!
