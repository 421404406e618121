//! Opening the runtime of a session's active turn: a fresh runtime with a
//! reserved block of event sequence numbers, the state carried over from
//! the session's latest earlier turn, and the event sequence numbers the
//! turn hands out.
use vstd::prelude::*;
use crate::carry::{part_len, parts_done, upsert_all};
use crate::dup::Duplicate;
use crate::event_seq::{
    reserve_event_seq_block, EventSeqError, SessionTurnEventSeqBlock,
    SESSION_TURN_RUNTIME_EVENT_SEQ_BLOCK_SIZE,
};
use crate::runtime::{merged_participant, next_generation, record_dirty_spec, RuntimePart, SessionTurnRuntime, PROJECTION_PRIORITY_NORMAL};
use crate::runtime_types::{
    DirtyEntryView, ProjectionDirtyOp, ProjectionEntity, RuntimeMovementIntent, SessionTurnDirtySets,
    SessionTurnParticipant,
};
use crate::seqs::{upserted, Keyed};
use crate::store::{insert_position, lemma_update_same_key, RuntimeStore};
use crate::text::{runtime_key_spec, str_eq};

verus! {

/// Largest turn number below `before` among the runtimes of session
/// `session_id`.
pub open spec fn latest_turn_before(rs: Seq<SessionTurnRuntime>, session_id: Seq<char>, before: u32) -> Option<u32>
    decreases rs.len(),
{
    if rs.len() == 0 {
        None
    } else {
        let rest = latest_turn_before(rs.drop_last(), session_id, before);
        let r = rs.last();
        if r.session_id@ == session_id && r.turn_number < before {
            match rest {
                Some(t) => Some(if t >= r.turn_number { t } else { r.turn_number }),
                None => Some(r.turn_number),
            }
        } else {
            rest
        }
    }
}

impl SessionTurnRuntime {
    /// `r` is a runtime just opened for turn `turn_number` of session
    /// `session_id`: well formed, holding nothing, with nothing changed and
    /// nothing to project.
    pub open spec fn fresh(
        r: &Self,
        session_id: Seq<char>,
        turn_number: u32,
        turn_started_at_ms: u64,
        turn_deadline_at_ms: u64,
        turn_duration_ms: u64,
    ) -> bool {
        &&& r.wf()
        &&& r.session_id@ == session_id
        &&& r.turn_number == turn_number
        &&& r.turn_started_at_ms == turn_started_at_ms
        &&& r.turn_deadline_at_ms == turn_deadline_at_ms
        &&& r.turn_duration_ms == turn_duration_ms
        &&& !r.closing
        &&& r.generation == 0
        &&& !r.participants_complete
        &&& !r.ready_complete
        &&& r.participants@.len() == 0
        &&& r.ready_participants@.len() == 0
        &&& r.champion_snapshots@.len() == 0
        &&& r.champion_spell_snapshots@.len() == 0
        &&& r.complete_champion_spellbooks@.len() == 0
        &&& r.world_object_snapshots@.len() == 0
        &&& r.occupancy_index@.len() == 0
        &&& r.contact_index@.len() == 0
        &&& r.quest_snapshots@.len() == 0
        &&& r.scenario_rule_snapshots@.len() == 0
        &&& r.intents@.len() == 0
        &&& r.command_receipts@.len() == 0
        &&& r.active_events@.len() == 0
        &&& r.central_objectives_completed is None
        &&& r.object_deltas@.len() == 0
        &&& r.resource_deltas@.len() == 0
        &&& r.partial_cursor is None
        &&& r.dirty == SessionTurnDirtySets::clean_spec()
        &&& r.projection_dirty_queue@.len() == 0
        &&& r.projection_checkpoint.flushed_generation == 0
        &&& r.projection_checkpoint.flushed_at_ms == 0
    }

    /// The first block of event sequence numbers reserved for a turn at
    /// session counter `next`.
    pub open spec fn first_block(next: u64) -> SessionTurnEventSeqBlock {
        SessionTurnEventSeqBlock {
            next_event_seq: next,
            exclusive_end_event_seq: (next + SESSION_TURN_RUNTIME_EVENT_SEQ_BLOCK_SIZE) as u64,
        }
    }

    /// Opens the runtime of a turn holding the given block of event
    /// sequence numbers.
    fn open_with_block(
        session_id: &str,
        turn_number: u32,
        turn_started_at_ms: u64,
        turn_deadline_at_ms: u64,
        turn_duration_ms: u64,
        block: SessionTurnEventSeqBlock,
    ) -> (runtime: Self)
        ensures
            Self::fresh(&runtime, session_id@, turn_number, turn_started_at_ms, turn_deadline_at_ms, turn_duration_ms),
            runtime.event_seq_block == Some(block),
    {
        let mut runtime = SessionTurnRuntime::new(
            session_id.to_owned(),
            turn_number,
            turn_started_at_ms,
            turn_deadline_at_ms,
            turn_duration_ms,
        );
        runtime.event_seq_block = Some(block);
        runtime
    }

    /// How the next event sequence number of this turn will be had: `None`
    /// when the turn's block still holds one, else the fresh block to
    /// reserve at the session counter `session_next_event_seq` (which the
    /// session then moves to the block's end). Fails when that end would
    /// overflow `u64`.
    pub fn event_seq_reservation(&self, session_next_event_seq: u64) -> (plan: Result<
        Option<SessionTurnEventSeqBlock>,
        EventSeqError,
    >)
        ensures
            (self.event_seq_block matches Some(b) && b.remaining() > 0) ==> plan == Ok::<Option<SessionTurnEventSeqBlock>, EventSeqError>(None),
            !(self.event_seq_block matches Some(b) && b.remaining() > 0) ==> {
                if session_next_event_seq + SESSION_TURN_RUNTIME_EVENT_SEQ_BLOCK_SIZE <= u64::MAX {
                    plan == Ok::<Option<SessionTurnEventSeqBlock>, EventSeqError>(Some(Self::first_block(session_next_event_seq)))
                } else {
                    plan == Err::<Option<SessionTurnEventSeqBlock>, EventSeqError>(EventSeqError::EventSequenceExhausted)
                }
            },
    {
        match &self.event_seq_block {
            Some(b) => {
                if b.next_event_seq < b.exclusive_end_event_seq {
                    return Ok(None);
                }
            },
            None => {},
        }
        let mut next = session_next_event_seq;
        match reserve_event_seq_block(&mut next) {
            Ok(block) => Ok(Some(block)),
            Err(e) => Err(e),
        }
    }

    /// Hands out the next event sequence number of this turn: from the
    /// turn's block when `fresh` is `None`, else the start of the fresh
    /// block, which becomes the turn's block (with the events marked
    /// changed). Either way the runtime counts one more change.
    pub fn reserve_session_event_seq(&mut self, fresh: Option<SessionTurnEventSeqBlock>) -> (event_seq: u64)
        requires
            old(self).wf(),
            fresh is None ==> (old(self).event_seq_block matches Some(b) && b.remaining() > 0),
            fresh matches Some(b) ==> b.next_event_seq < b.exclusive_end_event_seq,
        ensures
            final(self).wf(),
            Self::same_except(old(self), final(self), RuntimePart::EventSeqBlock),
            final(self).projection_dirty_queue@ == old(self).projection_dirty_queue@,
            final(self).projection_checkpoint == old(self).projection_checkpoint,
            final(self).central_objectives_completed == old(self).central_objectives_completed,
            final(self).generation == next_generation(old(self).generation),
            match fresh {
                None => {
                    let b = old(self).event_seq_block->0;
                    &&& event_seq == b.next_event_seq
                    &&& final(self).event_seq_block == Some(SessionTurnEventSeqBlock {
                        next_event_seq: (b.next_event_seq + 1) as u64,
                        ..b
                    })
                    &&& final(self).dirty == old(self).dirty
                },
                Some(b) => {
                    &&& event_seq == b.next_event_seq
                    &&& final(self).event_seq_block == Some(SessionTurnEventSeqBlock {
                        next_event_seq: (b.next_event_seq + 1) as u64,
                        ..b
                    })
                    &&& final(self).dirty == (SessionTurnDirtySets { events: true, ..old(self).dirty })
                },
            },
    {
        match fresh {
            None => {
                let mut b = self.event_seq_block.duplicate().unwrap();
                let taken = b.take_event_seq();
                self.event_seq_block = Some(b);
                self.mark_dirty();
                taken.unwrap()
            },
            Some(b) => {
                let start = b.next_event_seq;
                self.event_seq_block = Some(SessionTurnEventSeqBlock {
                    next_event_seq: start + 1,
                    exclusive_end_event_seq: b.exclusive_end_event_seq,
                });
                self.dirty.events = true;
                self.mark_dirty();
                start
            },
        }
    }
}

/// What preparing a turn's runtime from an earlier turn produced.
pub enum PreparedTurn {
    /// No new runtime (the session is not active, or the turn's runtime was
    /// already there).
    Nothing,
    /// A fresh runtime that still has to be filled from storage.
    NeedsRows(SessionTurnRuntime),
    /// A fresh runtime filled from the earlier turn's runtime.
    Ready(SessionTurnRuntime),
}


impl RuntimeStore {
    /// Index of the runtime of the latest turn of session `session_id` before
    /// turn `turn_number`, if any.
    pub fn latest_runtime_before(&self, session_id: &str, turn_number: u32) -> (found: Option<usize>)
        ensures
            match found {
                Some(i) => {
                    &&& i < self.runtimes@.len()
                    &&& self.runtimes@[i as int].session_id@ == session_id@
                    &&& latest_turn_before(self.runtimes@, session_id@, turn_number)
                        == Some(self.runtimes@[i as int].turn_number)
                },
                None => latest_turn_before(self.runtimes@, session_id@, turn_number) is None,
            },
    {
        let n = self.runtimes.len();
        let mut best: Option<usize> = None;
        let mut i: usize = 0;
        while i < n
            invariant
                n == self.runtimes@.len(),
                i <= n,
                match best {
                    Some(b) => {
                        &&& b < i
                        &&& self.runtimes@[b as int].session_id@ == session_id@
                        &&& latest_turn_before(self.runtimes@.take(i as int), session_id@, turn_number)
                            == Some(self.runtimes@[b as int].turn_number)
                    },
                    None => latest_turn_before(self.runtimes@.take(i as int), session_id@, turn_number) is None,
                },
            decreases n - i,
        {
            let r = &self.runtimes[i];
            if r.turn_number < turn_number && str_eq(r.session_id.as_str(), session_id) {
                best = match best {
                    Some(b) => if self.runtimes[b].turn_number >= r.turn_number { Some(b) } else { Some(i) },
                    None => Some(i),
                };
            }
            proof {
                let t = self.runtimes@.take(i as int + 1);
                assert(t.drop_last() =~= self.runtimes@.take(i as int));
                assert(t.last() == self.runtimes@[i as int]);
            }
            i = i + 1;
        }
        assert(self.runtimes@.take(n as int) =~= self.runtimes@);
        best
    }

    /// Carries into `runtime` the state of the runtime of the session's
    /// latest turn before `runtime`'s own turn; without such a runtime,
    /// `runtime` stays as it is.
    pub fn carry_from_latest_before(&self, runtime: &mut SessionTurnRuntime, now_ms: u64)
        requires
            old(runtime).wf(),
        ensures
            final(runtime).wf(),
            match latest_turn_before(self.runtimes@, old(runtime).session_id@, old(runtime).turn_number) {
                None => *final(runtime) == *old(runtime),
                Some(t) => exists|i: int|
                    0 <= i < self.runtimes@.len() && self.runtimes@[i].session_id@ == old(runtime).session_id@
                        && self.runtimes@[i].turn_number == t
                        && #[trigger] SessionTurnRuntime::carried(old(runtime), &self.runtimes@[i], final(runtime)),
            },
    {
        match self.latest_runtime_before(runtime.session_id.as_str(), runtime.turn_number) {
            Some(i) => {
                runtime.carry_forward_runtime_state(&self.runtimes[i], now_ms);
                proof {
                    let ii = i as int;
                    assert(SessionTurnRuntime::carried(old(runtime), &self.runtimes@[ii], runtime));
                }
            },
            None => {},
        }
    }

    /// Opens the runtime of the current turn of an active session that has
    /// none yet: a fresh runtime holding the session's next block of event
    /// sequence numbers (the session counter moves past it). `None`, with
    /// nothing reserved, for a session that is not active or a turn whose
    /// runtime is already open; fails, with nothing reserved, when the block
    /// would overflow the counter. Rows from storage and the state of an
    /// earlier turn (see `carry_from_latest_before`) are filled in after.
    pub fn prepare_active_turn_runtime(
        &self,
        session_state: &str,
        session_id: &str,
        current_turn: u32,
        turn_started_at_ms: u64,
        turn_deadline_at_ms: u64,
        turn_duration_ms: u64,
        next_event_seq: &mut u64,
    ) -> (prepared: Result<Option<SessionTurnRuntime>, EventSeqError>)
        requires
            self.wf(),
        ensures
            (session_state@ != "active"@ || self.lookup(runtime_key_spec(session_id@, current_turn as nat)) is Some)
                ==> prepared is Ok && prepared->Ok_0 is None && *final(next_event_seq) == *old(next_event_seq),
            (session_state@ == "active"@ && self.lookup(runtime_key_spec(session_id@, current_turn as nat)) is None)
                ==> if *old(next_event_seq) + SESSION_TURN_RUNTIME_EVENT_SEQ_BLOCK_SIZE <= u64::MAX {
                    &&& prepared is Ok
                    &&& prepared->Ok_0 is Some
                    &&& SessionTurnRuntime::fresh(&prepared->Ok_0->0, session_id@, current_turn, turn_started_at_ms, turn_deadline_at_ms, turn_duration_ms)
                    &&& prepared->Ok_0->0.event_seq_block == Some(SessionTurnRuntime::first_block(*old(next_event_seq)))
                    &&& *final(next_event_seq) == *old(next_event_seq) + SESSION_TURN_RUNTIME_EVENT_SEQ_BLOCK_SIZE
                } else {
                    &&& prepared == Err::<Option<SessionTurnRuntime>, EventSeqError>(EventSeqError::EventSequenceExhausted)
                    &&& *final(next_event_seq) == *old(next_event_seq)
                },
    {
        if !str_eq(session_state, "active") || self.contains_runtime(session_id, current_turn) {
            return Ok(None);
        }
        let block = match reserve_event_seq_block(next_event_seq) {
            Ok(b) => b,
            Err(e) => return Err(e),
        };
        Ok(Some(SessionTurnRuntime::open_with_block(
            session_id,
            current_turn,
            turn_started_at_ms,
            turn_deadline_at_ms,
            turn_duration_ms,
            block,
        )))
    }
}


/// The generation after `n` changes from `g`.
pub open spec fn generation_after(g: u64, n: nat) -> u64
    decreases n,
{
    if n == 0 {
        g
    } else {
        next_generation(generation_after(g, (n - 1) as nat))
    }
}

/// The dirty queue of the runtime `kernel` after each of `intents` is
/// recorded in turn, from an empty queue at generation 0.
pub open spec fn intents_recorded(kernel: Seq<char>, intents: Seq<RuntimeMovementIntent>, now_ms: u64) -> Seq<DirtyEntryView>
    decreases intents.len(),
{
    if intents.len() == 0 {
        Seq::empty()
    } else {
        record_dirty_spec(
            intents_recorded(kernel, intents.drop_last(), now_ms),
            kernel,
            generation_after(0, intents.len()),
            ProjectionEntity::MovementIntent,
            intents.last().intent_id@,
            ProjectionDirtyOp::Upsert,
            PROJECTION_PRIORITY_NORMAL,
            now_ms,
        )
    }
}

/// `s` holds the participant `p`: exactly one entry has its id, and that
/// entry has its player, slot and status, and its principal when `p`
/// names one.
pub open spec fn holds_participant(s: Seq<SessionTurnParticipant>, p: SessionTurnParticipant) -> bool {
    exists|i: int|
        #![trigger s[i]]
        {
            &&& 0 <= i < s.len()
            &&& s[i].participant_id@ == p.participant_id@
            &&& s[i].player_id == p.player_id
            &&& s[i].slot_index == p.slot_index
            &&& s[i].status == p.status
            &&& (p.principal_text is Some ==> s[i].principal_text == p.principal_text)
            &&& forall|j: int| 0 <= j < s.len() && (#[trigger] s[j]).participant_id@ == p.participant_id@ ==> j == i
        }
}

impl SessionTurnRuntime {
    /// `b` is `a` after upserting `participant`, as `upsert_participant`
    /// does it.
    pub open spec fn upserted_participant(a: &Self, b: &Self, participant: SessionTurnParticipant, now_ms: u64) -> bool {
        &&& b.participants@ == upserted(a.participants@, merged_participant(a.participants@, participant))
        &&& b.dirty == (SessionTurnDirtySets { participants: true, ..a.dirty })
        &&& Self::same_except(a, b, RuntimePart::Participants)
        &&& Self::recorded(a, b, ProjectionEntity::Participant, participant.participant_id@, ProjectionDirtyOp::Upsert, now_ms)
    }

    /// `r` is the runtime that a participant opens for turn `turn_number`
    /// of session `session_id`: fresh but for the pending `intents` (one
    /// per champion, later ones replacing earlier ones) and the participant
    /// itself, each recorded at `now_ms` as one change (one generation
    /// step and one queued upsert), the intents first.
    pub open spec fn opened_for(
        r: &Self,
        session_id: Seq<char>,
        turn_number: u32,
        turn_started_at_ms: u64,
        turn_deadline_at_ms: u64,
        turn_duration_ms: u64,
        participant: SessionTurnParticipant,
        intents: Seq<RuntimeMovementIntent>,
        now_ms: u64,
    ) -> bool {
        &&& r.wf()
        &&& r.session_id@ == session_id
        &&& r.turn_number == turn_number
        &&& r.turn_started_at_ms == turn_started_at_ms
        &&& r.turn_deadline_at_ms == turn_deadline_at_ms
        &&& r.turn_duration_ms == turn_duration_ms
        &&& !r.closing
        &&& !r.participants_complete
        &&& !r.ready_complete
        &&& r.participants@ == seq![participant]
        &&& r.intents@ == upsert_all(Seq::<RuntimeMovementIntent>::empty(), intents)
        &&& r.ready_participants@.len() == 0
        &&& r.champion_snapshots@.len() == 0
        &&& r.champion_spell_snapshots@.len() == 0
        &&& r.complete_champion_spellbooks@.len() == 0
        &&& r.world_object_snapshots@.len() == 0
        &&& r.occupancy_index@.len() == 0
        &&& r.contact_index@.len() == 0
        &&& r.quest_snapshots@.len() == 0
        &&& r.scenario_rule_snapshots@.len() == 0
        &&& r.command_receipts@.len() == 0
        &&& r.active_events@.len() == 0
        &&& r.event_seq_block is None
        &&& r.central_objectives_completed is None
        &&& r.object_deltas@.len() == 0
        &&& r.resource_deltas@.len() == 0
        &&& r.partial_cursor is None
        &&& r.generation == generation_after(0, intents.len() + 1)
        &&& r.dirty == (SessionTurnDirtySets {
            participants: true,
            intents: intents.len() > 0,
            ..SessionTurnDirtySets::clean_spec()
        })
        &&& r.queue() == record_dirty_spec(
            intents_recorded(r.kernel(), intents, now_ms),
            r.kernel(),
            r.generation,
            ProjectionEntity::Participant,
            participant.participant_id@,
            ProjectionDirtyOp::Upsert,
            PROJECTION_PRIORITY_NORMAL,
            now_ms,
        )
        &&& r.projection_checkpoint.flushed_generation == 0
        &&& r.projection_checkpoint.flushed_at_ms == 0
    }
}

impl RuntimeStore {
    /// Prepares the runtime of the current turn of an active session from
    /// the runtime of `previous_turn`. When the current turn's runtime is
    /// already open, the previous turn's state (if its runtime is open) is
    /// carried into it and nothing new is made. Otherwise a fresh runtime
    /// takes the session's next block of event sequence numbers and is
    /// filled from the previous turn's runtime, or, without one, is handed
    /// back to be filled from storage. A session that is not active gets
    /// nothing; a block that would overflow the counter fails, with nothing
    /// reserved.
    #[verifier::rlimit(30)]
    pub fn prepare_active_turn_runtime_from_previous(
        &mut self,
        session_state: &str,
        session_id: &str,
        current_turn: u32,
        turn_started_at_ms: u64,
        turn_deadline_at_ms: u64,
        turn_duration_ms: u64,
        next_event_seq: &mut u64,
        previous_turn: u32,
        now_ms: u64,
    ) -> (prepared: Result<PreparedTurn, EventSeqError>)
        requires
            old(self).wf(),
        ensures
            final(self).wf(),
            final(self).last_flush == old(self).last_flush,
            ({
                let k = old(self).index_of(runtime_key_spec(session_id@, current_turn as nat));
                let j = old(self).index_of(runtime_key_spec(session_id@, previous_turn as nat));
                if session_state@ != "active"@ {
                    &&& prepared matches Ok(PreparedTurn::Nothing)
                    &&& final(self).runtimes@ == old(self).runtimes@
                    &&& *final(next_event_seq) == *old(next_event_seq)
                } else if k >= 0 {
                    &&& prepared matches Ok(PreparedTurn::Nothing)
                    &&& *final(next_event_seq) == *old(next_event_seq)
                    &&& if j >= 0 {
                        exists|r: SessionTurnRuntime|
                            RuntimeStore::updated_at(old(self), final(self), k, r)
                                && #[trigger] SessionTurnRuntime::carried(&old(self).runtimes@[k], &old(self).runtimes@[j], &r)
                    } else {
                        final(self).runtimes@ == old(self).runtimes@
                    }
                } else if *old(next_event_seq) + SESSION_TURN_RUNTIME_EVENT_SEQ_BLOCK_SIZE <= u64::MAX {
                    &&& final(self).runtimes@ == old(self).runtimes@
                    &&& *final(next_event_seq) == *old(next_event_seq) + SESSION_TURN_RUNTIME_EVENT_SEQ_BLOCK_SIZE
                    &&& match prepared {
                        Ok(PreparedTurn::NeedsRows(r)) => {
                            &&& j < 0
                            &&& SessionTurnRuntime::fresh(&r, session_id@, current_turn, turn_started_at_ms, turn_deadline_at_ms, turn_duration_ms)
                            &&& r.event_seq_block == Some(SessionTurnRuntime::first_block(*old(next_event_seq)))
                        },
                        Ok(PreparedTurn::Ready(r)) => {
                            &&& j >= 0
                            &&& r.wf()
                            &&& exists|r0: SessionTurnRuntime|
                                SessionTurnRuntime::fresh(&r0, session_id@, current_turn, turn_started_at_ms, turn_deadline_at_ms, turn_duration_ms)
                                && r0.event_seq_block == Some(SessionTurnRuntime::first_block(*old(next_event_seq)))
                                && #[trigger] SessionTurnRuntime::carried(&r0, &old(self).runtimes@[j], &r)
                        },
                        _ => false,
                    }
                } else {
                    &&& prepared matches Err(EventSeqError::EventSequenceExhausted)
                    &&& final(self).runtimes@ == old(self).runtimes@
                    &&& *final(next_event_seq) == *old(next_event_seq)
                }
            }),
    {
        if !str_eq(session_state, "active") {
            return Ok(PreparedTurn::Nothing);
        }
        match self.index_of_turn(session_id, current_turn) {
            Some(k) => {
                match self.index_of_turn(session_id, previous_turn) {
                    Some(j) => {
                        let prev = self.runtimes[j].duplicate();
                        let ghost rs = self.runtimes@;
                        let mut r = self.runtimes.remove(k);
                        proof { assert(r.wf()); }
                        r.carry_forward_runtime_state(&prev, now_ms);
                        let ghost r2 = r;
                        self.runtimes.insert(k, r);
                        proof {
                            assert(self.runtimes@ =~= rs.update(k as int, r2));
                            lemma_update_same_key(rs, k as int, r2);
                            assert forall|x: int| 0 <= x < self.runtimes@.len() implies (#[trigger] self.runtimes@[x]).wf() by {
                                if x != k {
                                    assert(self.runtimes@[x] == rs[x]);
                                }
                            }
                            lemma_carry_reads_same(rs[k as int], rs[j as int], prev, r2);
                            assert(RuntimeStore::updated_at(old(self), self, k as int, r2));
                        }
                    },
                    None => {},
                }
                return Ok(PreparedTurn::Nothing);
            },
            None => {},
        }
        let block = match reserve_event_seq_block(next_event_seq) {
            Ok(b) => b,
            Err(e) => return Err(e),
        };
        let mut r = SessionTurnRuntime::open_with_block(
            session_id,
            current_turn,
            turn_started_at_ms,
            turn_deadline_at_ms,
            turn_duration_ms,
            block,
        );
        match self.index_of_turn(session_id, previous_turn) {
            Some(j) => {
                let ghost r0 = r;
                r.carry_forward_runtime_state(&self.runtimes[j], now_ms);
                proof {
                    assert(SessionTurnRuntime::carried(&r0, &self.runtimes@[j as int], &r));
                }
                Ok(PreparedTurn::Ready(r))
            },
            None => Ok(PreparedTurn::NeedsRows(r)),
        }
    }

    /// Makes sure the current turn's runtime holds `participant`: an open
    /// runtime upserts it (answering `true`); otherwise a runtime is opened
    /// with the given pending movement intents and the participant, and
    /// stored (answering `false`).
    #[verifier::rlimit(30)]
    pub fn ensure_session_turn_runtime(
        &mut self,
        session_id: &str,
        turn_number: u32,
        turn_started_at_ms: u64,
        turn_deadline_at_ms: u64,
        turn_duration_ms: u64,
        participant: SessionTurnParticipant,
        pending_intents: &Vec<RuntimeMovementIntent>,
        now_ms: u64,
    ) -> (existed: bool)
        requires
            old(self).wf(),
        ensures
            final(self).wf(),
            final(self).last_flush == old(self).last_flush,
            ({
                let k = old(self).index_of(runtime_key_spec(session_id@, turn_number as nat));
                &&& existed == (k >= 0)
                &&& existed ==> exists|r: SessionTurnRuntime|
                    RuntimeStore::updated_at(old(self), final(self), k, r)
                        && #[trigger] SessionTurnRuntime::upserted_participant(&old(self).runtimes@[k], &r, participant, now_ms)
                &&& !existed ==> exists|r: SessionTurnRuntime|
                    final(self).runtimes@ == old(self).runtimes@.insert(
                        insert_position(old(self).runtimes@, runtime_key_spec(session_id@, turn_number as nat)),
                        r,
                    ) && #[trigger] SessionTurnRuntime::opened_for(
                        &r,
                        session_id@,
                        turn_number,
                        turn_started_at_ms,
                        turn_deadline_at_ms,
                        turn_duration_ms,
                        participant,
                        pending_intents@,
                        now_ms,
                    )
            }),
            final(self).lookup(runtime_key_spec(session_id@, turn_number as nat)) matches Some(r)
                && holds_participant(r.participants@, participant),
    {
        match self.index_of_turn(session_id, turn_number) {
            Some(k) => {
                let ghost rs = self.runtimes@;
                let mut r = self.runtimes.remove(k);
                proof { assert(r.wf()); }
                r.upsert_participant(participant, now_ms);
                let ghost r2 = r;
                self.runtimes.insert(k, r);
                proof {
                    assert(self.runtimes@ =~= rs.update(k as int, r2));
                    lemma_update_same_key(rs, k as int, r2);
                    assert forall|x: int| 0 <= x < self.runtimes@.len() implies (#[trigger] self.runtimes@[x]).wf() by {
                        if x != k {
                            assert(self.runtimes@[x] == rs[x]);
                        }
                    }
                    assert(RuntimeStore::updated_at(old(self), self, k as int, r2));
                    assert(SessionTurnRuntime::upserted_participant(&rs[k as int], &r2, participant, now_ms));
                    let key = runtime_key_spec(session_id@, turn_number as nat);
                    assert(self.index_of(key) == k);
                    let item = merged_participant(rs[k as int].participants@, participant);
                    crate::seqs::lemma_upsert_keyed(rs[k as int].participants@, item);
                    crate::seqs::lemma_find_first(rs[k as int].participants@, crate::seqs::has_key::<SessionTurnParticipant>(participant.key_view()));
                    let ps = r2.participants@;
                    assert(item.key_view() == participant.key_view());
                    let w = choose|w: int| 0 <= w < ps.len() && #[trigger] ps[w].key_view() == item.key_view();
                    assert(ps[w] == item);
                    assert forall|j: int| 0 <= j < ps.len() && (#[trigger] ps[j]).participant_id@ == participant.participant_id@ implies j == w by {
                        if j != w {
                            assert(ps[j].key_view() != ps[w].key_view());
                        }
                    }
                    assert(holds_participant(ps, participant));
                }
                true
            },
            None => {
                let mut r = SessionTurnRuntime::new(
                    session_id.to_owned(),
                    turn_number,
                    turn_started_at_ms,
                    turn_deadline_at_ms,
                    turn_duration_ms,
                );
                let ghost r0 = r;
                let ghost pi = pending_intents@;
                proof {
                    assert(pi.take(0) =~= Seq::<RuntimeMovementIntent>::empty());
                }
                let mut i: usize = 0;
                while i < pending_intents.len()
                    invariant
                        0 <= i <= pi.len(),
                        pi == pending_intents@,
                        r.wf(),
                        SessionTurnRuntime::same_except(&r0, &r, RuntimePart::Intents),
                        r0.intents@.len() == 0,
                        r.intents@ == upsert_all(Seq::<RuntimeMovementIntent>::empty(), pi.take(i as int)),
                        r.generation == generation_after(0, i as nat),
                        r.queue() == intents_recorded(r0.kernel(), pi.take(i as int), now_ms),
                        r.dirty == (SessionTurnDirtySets { intents: i > 0, ..SessionTurnDirtySets::clean_spec() }),
                        r.projection_checkpoint.flushed_generation == 0,
                        r.projection_checkpoint.flushed_at_ms == 0,
                    decreases pi.len() - i,
                {
                    let intent = pending_intents[i].duplicate();
                    proof {
                        assert(pi.take(i + 1).drop_last() =~= pi.take(i as int));
                    }
                    r.upsert_intent(intent, now_ms);
                    i = i + 1;
                }
                proof {
                    assert(pi.take(i as int) =~= pi);
                }
                let ghost r1 = r;
                r.upsert_participant(participant, now_ms);
                proof {
                    assert(r1.participants@.len() == 0);
                    crate::seqs::lemma_find_first(r1.participants@, crate::seqs::has_key::<SessionTurnParticipant>(participant.key_view()));
                    assert(merged_participant(r1.participants@, participant) == participant);
                    assert(r.participants@ =~= seq![participant]);
                    assert(r.session_id@ == session_id@);
                    assert(SessionTurnRuntime::opened_for(&r, session_id@, turn_number, turn_started_at_ms, turn_deadline_at_ms, turn_duration_ms, participant, pi, now_ms));
                }
                let ghost rr = r;
                let ghost before = self.runtimes@;
                self.insert_runtime(r);
                proof {
                    let key = runtime_key_spec(session_id@, turn_number as nat);
                    assert(rr.kernel() == key);
                    crate::laws::lemma_store_read_after_write(before, rr, key);
                    assert(crate::store::inserted(before, rr) == self.runtimes@);
                    assert(self.lookup(key) == Some(rr));
                    let ps = rr.participants@;
                    assert(ps[0] == participant);
                    assert(holds_participant(ps, participant));
                }
                false
            },
        }
    }
}

/// The parts of `p` and `q` that carrying reads are the same.
proof fn lemma_carry_reads_same(a: SessionTurnRuntime, p: SessionTurnRuntime, q: SessionTurnRuntime, b: SessionTurnRuntime)
    requires
        SessionTurnRuntime::unchanged(&p, &q),
        SessionTurnRuntime::carried(&a, &q, &b),
    ensures
        SessionTurnRuntime::carried(&a, &p, &b),
{
    assert(p.participants@ == q.participants@);
    assert(forall|k: int| #[trigger] part_len(p, k) == part_len(q, k));
    assert(part_len(p, 0) == part_len(q, 0));
    assert(parts_done(p, 0) == parts_done(q, 0));
    assert(parts_done(p, 1) == parts_done(q, 1));
    assert(parts_done(p, 2) == parts_done(q, 2));
    assert(parts_done(p, 3) == parts_done(q, 3));
    assert(parts_done(p, 4) == parts_done(q, 4));
    assert(parts_done(p, 5) == parts_done(q, 5));
    assert(parts_done(p, 6) == parts_done(q, 6));
    assert(parts_done(p, 7) == parts_done(q, 7));
}

} // verus!
