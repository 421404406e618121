//! Mirroring stored changes into the active turns of a session: a champion
//! row moves its snapshot and its occupancy, a world object row its
//! snapshot, its change record and its contact cell.
use vstd::prelude::*;
use crate::runtime::{champion_on_layer, merged_participant, not_champion_on_layer, not_conflicting, SessionTurnRuntime};
use crate::runtime_types::{
    ChampionSnapshot, ObjectTurnDelta, RuntimeContactCell, RuntimeOccupancyCell, SessionTurnParticipant,
    WorldObjectSnapshot,
};
use crate::dup::Duplicate;
use crate::seqs::upserted;
use crate::store::{lemma_update_same_key, RuntimeStore};
use crate::text::str_eq;

verus! {

/// Whether a champion of this status stands on the map.
pub open spec fn on_map(status: Seq<char>) -> bool {
    status == "active"@ || status == "in_battle"@
}

/// The occupancy after mirroring champion `c`: its cell replaces what
/// conflicts with it while it is on the map; otherwise its champion-layer
/// cells are dropped.
pub open spec fn champion_occupancy(occ: Seq<RuntimeOccupancyCell>, c: ChampionSnapshot, cell: RuntimeOccupancyCell) -> Seq<RuntimeOccupancyCell> {
    if on_map(c.status@) {
        occ.filter(not_conflicting(cell)).push(cell)
    } else if exists|k: int| 0 <= k < occ.len() && champion_on_layer("champion"@, c.champion_id@)(#[trigger] occ[k]) {
        occ.filter(not_champion_on_layer("champion"@, c.champion_id@))
    } else {
        occ
    }
}

/// `b` is `a` with champion `c` mirrored in (`cell` its occupancy cell).
pub open spec fn champion_mirrored(a: SessionTurnRuntime, b: SessionTurnRuntime, c: ChampionSnapshot, cell: RuntimeOccupancyCell) -> bool {
    &&& b.wf()
    &&& b.session_id == a.session_id
    &&& b.turn_number == a.turn_number
    &&& b.champion_snapshots@ == upserted(a.champion_snapshots@, c)
    &&& b.occupancy_index@ == champion_occupancy(a.occupancy_index@, c, cell)
    &&& b.world_object_snapshots@ == a.world_object_snapshots@
    &&& b.participants@ == a.participants@
}

fn champion_cell_of(c: &ChampionSnapshot) -> (cell: RuntimeOccupancyCell)
    ensures
        cell.x == c.x && cell.y == c.y,
        cell.layer@ == "champion"@,
        cell.occupant_kind@ == "champion"@,
        cell.occupant_id_text@ == c.champion_id@,
        cell.owner_participant_id.deep_view() == Some(c.participant_id@),
        cell.blocking == (c.status@ == "active"@),
{
    RuntimeOccupancyCell {
        x: c.x,
        y: c.y,
        layer: "champion".to_owned(),
        occupant_kind: "champion".to_owned(),
        occupant_id_text: c.champion_id.clone(),
        owner_participant_id: Some(c.participant_id.clone()),
        blocking: str_eq(c.status.as_str(), "active"),
    }
}

/// Whether `cell` is the occupancy cell of champion `c`.
pub open spec fn is_champion_cell(cell: RuntimeOccupancyCell, c: ChampionSnapshot) -> bool {
    &&& cell.x == c.x && cell.y == c.y
    &&& cell.layer@ == "champion"@
    &&& cell.occupant_kind@ == "champion"@
    &&& cell.occupant_id_text@ == c.champion_id@
    &&& cell.owner_participant_id.deep_view() == Some(c.participant_id@)
    &&& cell.blocking == (c.status@ == "active"@)
}

impl SessionTurnRuntime {
    /// Mirrors a stored champion into this turn: its snapshot is upserted;
    /// a champion on the map occupies its cell, any other leaves the
    /// champion layer. Answers the cell it occupies.
    pub fn mirror_champion(&mut self, champion: ChampionSnapshot, now_ms: u64) -> (cell: RuntimeOccupancyCell)
        requires
            old(self).wf(),
        ensures
            is_champion_cell(cell, champion),
            champion_mirrored(*old(self), *final(self), champion, cell),
    {
        let cell = champion_cell_of(&champion);
        let placed = str_eq(champion.status.as_str(), "active") || str_eq(champion.status.as_str(), "in_battle");
        let id = champion.champion_id.clone();
        let ghost c = champion;
        self.upsert_champion_snapshot(champion, now_ms);
        if placed {
            self.upsert_occupancy_for_occupant(cell.duplicate_cell(), now_ms);
        } else {
            self.remove_occupancy_for_occupant("champion", id.as_str(), now_ms);
        }
        proof {
            reveal_strlit("champion");
        }
        cell
    }
}

impl RuntimeOccupancyCell {
    /// An equal cell.
    pub fn duplicate_cell(&self) -> (copy: Self)
        ensures
            copy == *self,
    {
        RuntimeOccupancyCell {
            x: self.x,
            y: self.y,
            layer: self.layer.clone(),
            occupant_kind: self.occupant_kind.clone(),
            occupant_id_text: self.occupant_id_text.clone(),
            owner_participant_id: match &self.owner_participant_id {
                Some(o) => Some(o.clone()),
                None => None,
            },
            blocking: self.blocking,
        }
    }
}

impl RuntimeStore {
    /// Mirrors a stored champion into every active turn of its session;
    /// the other runtimes stay as they were.
    pub fn mirror_champion_update(&mut self, session_id: &str, champion: &ChampionSnapshot, now_ms: u64)
        requires
            old(self).wf(),
        ensures
            final(self).wf(),
            final(self).last_flush == old(self).last_flush,
            final(self).runtimes@.len() == old(self).runtimes@.len(),
            forall|i: int| 0 <= i < old(self).runtimes@.len() ==> if (#[trigger] old(self).runtimes@[i]).session_id@ == session_id@ {
                exists|cell: RuntimeOccupancyCell| is_champion_cell(cell, *champion)
                    && champion_mirrored(old(self).runtimes@[i], final(self).runtimes@[i], *champion, cell)
            } else {
                final(self).runtimes@[i] == old(self).runtimes@[i]
            },
    {
        let ghost start = self.runtimes@;
        let n = self.runtimes.len();
        let mut i: usize = 0;
        while i < n
            invariant
                n == start.len(),
                self.runtimes@.len() == n,
                i <= n,
                self.wf(),
                self.last_flush == old(self).last_flush,
                start == old(self).runtimes@,
                forall|j: int| 0 <= j < n ==> (#[trigger] self.runtimes@[j]).kernel() == start[j].kernel(),
                forall|j: int| i <= j < n ==> self.runtimes@[j] == start[j],
                forall|j: int| 0 <= j < i ==> if (#[trigger] start[j]).session_id@ == session_id@ {
                    exists|cell: RuntimeOccupancyCell| is_champion_cell(cell, *champion)
                        && champion_mirrored(start[j], self.runtimes@[j], *champion, cell)
                } else {
                    self.runtimes@[j] == start[j]
                },
            decreases n - i,
        {
            if str_eq(self.runtimes[i].session_id.as_str(), session_id) {
                let ghost rs = self.runtimes@;
                let mut r = self.runtimes.remove(i);
                proof {
                    assert(r == rs[i as int]);
                    assert(r.wf());
                }
                let ghost r1 = r;
                let c = ChampionSnapshot {
                    champion_id: champion.champion_id.clone(),
                    participant_id: champion.participant_id.clone(),
                    x: champion.x,
                    y: champion.y,
                    status: champion.status.clone(),
                    movement_turn: champion.movement_turn,
                    movement_remaining: champion.movement_remaining,
                    movement_max: champion.movement_max,
                };
                let cell = r.mirror_champion(c, now_ms);
                let ghost r2 = r;
                self.runtimes.insert(i, r);
                proof {
                    assert(self.runtimes@ =~= rs.update(i as int, r2));
                    assert(r2.kernel() == r1.kernel());
                    lemma_update_same_key(rs, i as int, r2);
                    assert forall|j: int| 0 <= j < self.runtimes@.len() implies (#[trigger] self.runtimes@[j]).wf() by {
                        if j != i {
                            assert(self.runtimes@[j] == rs[j]);
                        }
                    }
                    assert(is_champion_cell(cell, *champion) && champion_mirrored(start[i as int], self.runtimes@[i as int], *champion, cell));
                    assert forall|j: int| 0 <= j < i + 1 implies if (#[trigger] start[j]).session_id@ == session_id@ {
                        exists|cell: RuntimeOccupancyCell| is_champion_cell(cell, *champion)
                            && champion_mirrored(start[j], self.runtimes@[j], *champion, cell)
                    } else {
                        self.runtimes@[j] == start[j]
                    } by {
                        if j < i {
                            assert(self.runtimes@[j] == rs[j]);
                        }
                    }
                }
            }
            i = i + 1;
        }
    }
}

/// Whether `d` records world object `o` where it now stands, visible until
/// it is collected.
pub open spec fn is_object_delta(d: ObjectTurnDelta, o: WorldObjectSnapshot) -> bool {
    &&& d.subject_kind@ == "world_object"@
    &&& d.subject_id@ == o.object_id@
    &&& d.x == o.x && d.y == o.y
    &&& d.visible == (o.state@ != "collected"@)
}

/// Whether `cell` is the contact cell of world object `o`.
pub open spec fn is_object_contact(cell: RuntimeContactCell, o: WorldObjectSnapshot) -> bool {
    &&& cell.x == o.x && cell.y == o.y
    &&& cell.subject_kind@ == "world_object"@
    &&& cell.subject_id_text@ == o.object_id@
    &&& cell.owner_participant_id == o.owner_participant_id
    &&& cell.guarded_neutral_army_id == o.guarded_neutral_army_id
    &&& cell.status == o.state
}

/// `b` is `a` with world object `o` mirrored in: its snapshot upserted, the
/// change `d` recorded, its contact cell `cell` upserted.
pub open spec fn object_mirrored(a: SessionTurnRuntime, b: SessionTurnRuntime, o: WorldObjectSnapshot, d: ObjectTurnDelta, cell: RuntimeContactCell) -> bool {
    &&& b.wf()
    &&& b.session_id == a.session_id
    &&& b.turn_number == a.turn_number
    &&& b.world_object_snapshots@ == upserted(a.world_object_snapshots@, o)
    &&& b.object_deltas@ == a.object_deltas@.push(d)
    &&& b.contact_index@ == upserted(a.contact_index@, cell)
    &&& b.champion_snapshots@ == a.champion_snapshots@
    &&& b.occupancy_index@ == a.occupancy_index@
}

impl SessionTurnRuntime {
    /// Mirrors a stored world object into this turn: its snapshot, a record
    /// of its change, and its contact cell. Answers the change and the cell.
    pub fn mirror_world_object(&mut self, object: WorldObjectSnapshot, now_ms: u64) -> (mirrored: (ObjectTurnDelta, RuntimeContactCell))
        requires
            old(self).wf(),
        ensures
            is_object_delta(mirrored.0, object),
            is_object_contact(mirrored.1, object),
            object_mirrored(*old(self), *final(self), object, mirrored.0, mirrored.1),
    {
        let delta = ObjectTurnDelta {
            subject_kind: "world_object".to_owned(),
            subject_id: object.object_id.clone(),
            x: object.x,
            y: object.y,
            visible: !str_eq(object.state.as_str(), "collected"),
        };
        let cell = RuntimeContactCell {
            x: object.x,
            y: object.y,
            subject_kind: "world_object".to_owned(),
            subject_id_text: object.object_id.clone(),
            owner_participant_id: match &object.owner_participant_id {
                Some(o) => Some(o.clone()),
                None => None,
            },
            guarded_neutral_army_id: match &object.guarded_neutral_army_id {
                Some(g) => Some(g.clone()),
                None => None,
            },
            status: object.state.clone(),
        };
        let delta_copy = ObjectTurnDelta {
            subject_kind: delta.subject_kind.clone(),
            subject_id: delta.subject_id.clone(),
            x: delta.x,
            y: delta.y,
            visible: delta.visible,
        };
        let cell_copy = RuntimeContactCell {
            x: cell.x,
            y: cell.y,
            subject_kind: cell.subject_kind.clone(),
            subject_id_text: cell.subject_id_text.clone(),
            owner_participant_id: match &cell.owner_participant_id {
                Some(o) => Some(o.clone()),
                None => None,
            },
            guarded_neutral_army_id: match &cell.guarded_neutral_army_id {
                Some(g) => Some(g.clone()),
                None => None,
            },
            status: cell.status.clone(),
        };
        self.upsert_world_object_snapshot(object, now_ms);
        self.push_object_delta(delta, now_ms);
        self.upsert_contact_cell(cell, now_ms);
        (delta_copy, cell_copy)
    }
}

impl RuntimeStore {
    /// Mirrors a stored world object into every active turn of its session;
    /// the other runtimes stay as they were.
    pub fn mirror_world_object_update(&mut self, session_id: &str, object: &WorldObjectSnapshot, now_ms: u64)
        requires
            old(self).wf(),
        ensures
            final(self).wf(),
            final(self).last_flush == old(self).last_flush,
            final(self).runtimes@.len() == old(self).runtimes@.len(),
            forall|i: int| 0 <= i < old(self).runtimes@.len() ==> if (#[trigger] old(self).runtimes@[i]).session_id@ == session_id@ {
                exists|d: ObjectTurnDelta, cell: RuntimeContactCell| is_object_delta(d, *object) && is_object_contact(cell, *object)
                    && object_mirrored(old(self).runtimes@[i], final(self).runtimes@[i], *object, d, cell)
            } else {
                final(self).runtimes@[i] == old(self).runtimes@[i]
            },
    {
        let ghost start = self.runtimes@;
        let n = self.runtimes.len();
        let mut i: usize = 0;
        while i < n
            invariant
                n == start.len(),
                self.runtimes@.len() == n,
                i <= n,
                self.wf(),
                self.last_flush == old(self).last_flush,
                start == old(self).runtimes@,
                forall|j: int| i <= j < n ==> self.runtimes@[j] == start[j],
                forall|j: int| 0 <= j < i ==> if (#[trigger] start[j]).session_id@ == session_id@ {
                    exists|d: ObjectTurnDelta, cell: RuntimeContactCell| is_object_delta(d, *object) && is_object_contact(cell, *object)
                        && object_mirrored(start[j], self.runtimes@[j], *object, d, cell)
                } else {
                    self.runtimes@[j] == start[j]
                },
            decreases n - i,
        {
            if str_eq(self.runtimes[i].session_id.as_str(), session_id) {
                let ghost rs = self.runtimes@;
                let mut r = self.runtimes.remove(i);
                proof {
                    assert(r == rs[i as int]);
                    assert(r.wf());
                }
                let ghost r1 = r;
                let o = WorldObjectSnapshot {
                    object_id: object.object_id.clone(),
                    x: object.x,
                    y: object.y,
                    state: object.state.clone(),
                    owner_participant_id: match &object.owner_participant_id {
                        Some(p) => Some(p.clone()),
                        None => None,
                    },
                    guarded_neutral_army_id: match &object.guarded_neutral_army_id {
                        Some(g) => Some(g.clone()),
                        None => None,
                    },
                };
                let (d, cell) = r.mirror_world_object(o, now_ms);
                let ghost r2 = r;
                self.runtimes.insert(i, r);
                proof {
                    assert(self.runtimes@ =~= rs.update(i as int, r2));
                    assert(r2.kernel() == r1.kernel());
                    lemma_update_same_key(rs, i as int, r2);
                    assert forall|j: int| 0 <= j < self.runtimes@.len() implies (#[trigger] self.runtimes@[j]).wf() by {
                        if j != i {
                            assert(self.runtimes@[j] == rs[j]);
                        }
                    }
                    assert(is_object_delta(d, *object) && is_object_contact(cell, *object)
                        && object_mirrored(start[i as int], self.runtimes@[i as int], *object, d, cell));
                    assert forall|j: int| 0 <= j < i + 1 implies if (#[trigger] start[j]).session_id@ == session_id@ {
                        exists|d: ObjectTurnDelta, cell: RuntimeContactCell| is_object_delta(d, *object) && is_object_contact(cell, *object)
                            && object_mirrored(start[j], self.runtimes@[j], *object, d, cell)
                    } else {
                        self.runtimes@[j] == start[j]
                    } by {
                        if j < i {
                            assert(self.runtimes@[j] == rs[j]);
                        }
                    }
                }
            }
            i = i + 1;
        }
    }
}

/// `b` is `a` with participant `p` upserted (keeping the principal `a`
/// knows for it when `p` brings none).
pub open spec fn participant_mirrored(a: SessionTurnRuntime, b: SessionTurnRuntime, p: SessionTurnParticipant) -> bool {
    &&& b.wf()
    &&& b.session_id == a.session_id
    &&& b.turn_number == a.turn_number
    &&& b.participants@ == upserted(a.participants@, merged_participant(a.participants@, p))
    &&& b.champion_snapshots@ == a.champion_snapshots@
    &&& b.world_object_snapshots@ == a.world_object_snapshots@
}

impl RuntimeStore {
    /// Mirrors a stored participant into every active turn of its session;
    /// the other runtimes stay as they were.
    pub fn mirror_participant_update(&mut self, session_id: &str, participant: &SessionTurnParticipant, now_ms: u64)
        requires
            old(self).wf(),
        ensures
            final(self).wf(),
            final(self).last_flush == old(self).last_flush,
            final(self).runtimes@.len() == old(self).runtimes@.len(),
            forall|i: int| 0 <= i < old(self).runtimes@.len() ==> if (#[trigger] old(self).runtimes@[i]).session_id@ == session_id@ {
                participant_mirrored(old(self).runtimes@[i], final(self).runtimes@[i], *participant)
            } else {
                final(self).runtimes@[i] == old(self).runtimes@[i]
            },
    {
        let ghost start = self.runtimes@;
        let n = self.runtimes.len();
        let mut i: usize = 0;
        while i < n
            invariant
                n == start.len(),
                self.runtimes@.len() == n,
                i <= n,
                self.wf(),
                self.last_flush == old(self).last_flush,
                start == old(self).runtimes@,
                forall|j: int| i <= j < n ==> self.runtimes@[j] == start[j],
                forall|j: int| 0 <= j < i ==> if (#[trigger] start[j]).session_id@ == session_id@ {
                    participant_mirrored(start[j], self.runtimes@[j], *participant)
                } else {
                    self.runtimes@[j] == start[j]
                },
            decreases n - i,
        {
            if str_eq(self.runtimes[i].session_id.as_str(), session_id) {
                let ghost rs = self.runtimes@;
                let mut r = self.runtimes.remove(i);
                proof {
                    assert(r == rs[i as int]);
                    assert(r.wf());
                }
                let ghost r1 = r;
                let p = participant.duplicate();
                r.upsert_participant(p, now_ms);
                let ghost r2 = r;
                self.runtimes.insert(i, r);
                proof {
                    assert(self.runtimes@ =~= rs.update(i as int, r2));
                    assert(r2.kernel() == r1.kernel());
                    lemma_update_same_key(rs, i as int, r2);
                    assert forall|j: int| 0 <= j < self.runtimes@.len() implies (#[trigger] self.runtimes@[j]).wf() by {
                        if j != i {
                            assert(self.runtimes@[j] == rs[j]);
                        }
                    }
                    assert(participant_mirrored(start[i as int], self.runtimes@[i as int], *participant));
                    assert forall|j: int| 0 <= j < i + 1 implies if (#[trigger] start[j]).session_id@ == session_id@ {
                        participant_mirrored(start[j], self.runtimes@[j], *participant)
                    } else {
                        self.runtimes@[j] == start[j]
                    } by {
                        if j < i {
                            assert(self.runtimes@[j] == rs[j]);
                        }
                    }
                }
            }
            i = i + 1;
        }
    }
}

} // verus!
