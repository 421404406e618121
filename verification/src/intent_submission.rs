//! Submitting a movement intent: the command's payload, what a repeated
//! nonce answers, and the public event that records the submission once per
//! champion and turn.
use vstd::prelude::*;
use crate::command_answer::{failed_command, FailedCommandAnswer, PublicError};
use crate::dup::Duplicate;
use crate::event_seq::SessionTurnEventSeqBlock;
use crate::movement_rules::MovementError;
use crate::runtime::{record_dirty_spec, SessionTurnRuntime, PROJECTION_PRIORITY_NORMAL};
use crate::runtime_types::{
    ProjectionDirtyOp, ProjectionEntity, RuntimeEventView, RuntimeMovementIntent,
    SessionTurnCommandReceipt, SessionTurnDirtySets, SessionTurnEvent,
};
use crate::seqs::{find_first, lemma_find_first_is, lemma_find_first_none, upserted};
use crate::turn_setup::generation_after;
use crate::text::{dec, escape_seq, push_char, push_decimal, push_escaped, push_str, str_eq};

verus! {

/// The payload of a move command.
pub open spec fn move_payload_spec(champion_id: Seq<char>, path_text: Seq<char>) -> Seq<char> {
    "{\"champion_id\":\""@ + escape_seq(champion_id) + "\",\"path\":\""@ + escape_seq(path_text) + "\"}"@
}

/// The payload of a move command for `champion_id` along `path_text`.
pub fn move_intent_payload_json(champion_id: &str, path_text: &str) -> (json: String)
    ensures
        json@ == move_payload_spec(champion_id@, path_text@),
{
    let mut out = String::new();
    push_str(&mut out, "{\"champion_id\":\"");
    push_escaped(&mut out, champion_id);
    push_str(&mut out, "\",\"path\":\"");
    push_escaped(&mut out, path_text);
    push_str(&mut out, "\"}");
    proof {
        assert(out@ =~= move_payload_spec(champion_id@, path_text@));
    }
    out
}

/// What a command's nonce answers.
#[derive(Clone, Copy, Debug, PartialEq, Eq, Structural)]
pub enum NonceReplay {
    /// No receipt holds the nonce: apply the command.
    Fresh,
    /// The receipt of the same payload: answer its response again.
    Replay,
    /// The nonce was used for another payload: refuse.
    Mismatch,
}

/// What a command's nonce answers, from the payload hash of the receipt
/// that holds it, if any.
pub fn nonce_replay(existing_payload_hash: Option<&str>, payload_hash: &str) -> (replay: NonceReplay)
    ensures
        replay == match existing_payload_hash {
            None => NonceReplay::Fresh,
            Some(h) => if h@ == payload_hash@ { NonceReplay::Replay } else { NonceReplay::Mismatch },
        },
{
    match existing_payload_hash {
        None => NonceReplay::Fresh,
        Some(h) => if str_eq(h, payload_hash) {
            NonceReplay::Replay
        } else {
            NonceReplay::Mismatch
        },
    }
}

/// `movement_intent:<champion>:<turn>`, the key of the submission event.
pub open spec fn intent_event_key_spec(champion_id: Seq<char>, turn_number: u32) -> Seq<char> {
    "movement_intent:"@ + champion_id + seq![':'] + dec(turn_number as nat)
}

/// The key of the event recording a champion's intent in a turn.
pub fn intent_event_key(champion_id: &str, turn_number: u32) -> (key: String)
    ensures
        key@ == intent_event_key_spec(champion_id@, turn_number),
{
    let mut out = String::new();
    push_str(&mut out, "movement_intent:");
    push_str(&mut out, champion_id);
    push_char(&mut out, ':');
    push_decimal(&mut out, turn_number as u64);
    proof {
        assert(out@ =~= intent_event_key_spec(champion_id@, turn_number));
    }
    out
}

/// The payload of the submission event.
pub open spec fn intent_event_payload_spec(intent_id: Seq<char>, path_len: nat) -> Seq<char> {
    "{\"intent_id\":\""@ + intent_id + "\",\"path_len\":"@ + dec(path_len) + "}"@
}

/// The payload of the submission event.
pub fn intent_event_payload(intent_id: &str, path_len: usize) -> (json: String)
    ensures
        json@ == intent_event_payload_spec(intent_id@, path_len as nat),
{
    let mut out = String::new();
    push_str(&mut out, "{\"intent_id\":\"");
    push_str(&mut out, intent_id);
    push_str(&mut out, "\",\"path_len\":");
    push_decimal(&mut out, path_len as u64);
    push_str(&mut out, "}");
    proof {
        assert(out@ =~= intent_event_payload_spec(intent_id@, path_len as nat));
    }
    out
}

/// Whether an event of the turn is the public event with key `key`.
pub open spec fn public_event_with_key(key: Seq<char>) -> spec_fn(SessionTurnEvent) -> bool {
    |e: SessionTurnEvent| e.event.event_key@ == key && e.event.audience_key@ == "public"@
}

impl SessionTurnRuntime {
    /// The place of the first public event of the turn with key `key`.
    pub fn public_event_index(&self, key: &str) -> (found: Option<usize>)
        ensures
            match found {
                Some(i) => i < self.active_events@.len() && i as int == find_first(self.active_events@, public_event_with_key(key@)),
                None => find_first(self.active_events@, public_event_with_key(key@)) == -1,
            },
    {
        let mut i: usize = 0;
        while i < self.active_events.len()
            invariant
                i <= self.active_events@.len(),
                forall|j: int| 0 <= j < i ==> !(#[trigger] public_event_with_key(key@)(self.active_events@[j])),
            decreases self.active_events@.len() - i,
        {
            let e = &self.active_events[i];
            if str_eq(e.event.event_key.as_str(), key) && str_eq(e.event.audience_key.as_str(), "public") {
                proof {
                    lemma_find_first_is(self.active_events@, public_event_with_key(key@), i as int);
                }
                return Some(i);
            }
            i = i + 1;
        }
        proof {
            lemma_find_first_none(self.active_events@, public_event_with_key(key@));
        }
        None
    }
}

/// What a move command comes to, in the order the checks are made.
#[derive(Clone, Copy, Debug, PartialEq, Eq, Structural)]
pub enum MoveCommandDecision {
    /// The path was refused.
    PathRejected(MovementError),
    /// The payload is longer than commands may be: answered
    /// `payload_too_large`.
    PayloadTooLarge,
    /// The nonce was used for the same payload: its response is answered
    /// again.
    Replay,
    /// The nonce was used for another payload: answered
    /// `duplicate_nonce_payload_mismatch`.
    NonceMismatch,
    /// The turn takes no new command.
    NotAccepting,
    /// The command is applied.
    Apply,
}

/// What a move command comes to: a refused path first, then a payload of
/// more than `max_payload_len` bytes, then a nonce already used (replayed
/// for the same payload hash, refused for another), then a turn that takes
/// no new command; otherwise the command is applied.
pub open spec fn move_command_decision_spec(
    path_ok: Result<(), MovementError>,
    payload_len: nat,
    max_payload_len: nat,
    existing_payload_hash: Option<Seq<char>>,
    payload_hash: Seq<char>,
    accepts_new_command: bool,
) -> MoveCommandDecision {
    match path_ok {
        Err(e) => MoveCommandDecision::PathRejected(e),
        Ok(_) => if payload_len > max_payload_len {
            MoveCommandDecision::PayloadTooLarge
        } else {
            match existing_payload_hash {
                Some(h) => if h == payload_hash {
                    MoveCommandDecision::Replay
                } else {
                    MoveCommandDecision::NonceMismatch
                },
                None => if accepts_new_command {
                    MoveCommandDecision::Apply
                } else {
                    MoveCommandDecision::NotAccepting
                },
            }
        },
    }
}

/// Decides a move command from the path check, the payload's length, the
/// payload hash of the receipt already holding its nonce (if any) and
/// whether the turn takes new commands (see `move_command_decision_spec`).
pub fn move_command_decision(
    path_ok: Result<(), MovementError>,
    payload_len: usize,
    max_payload_len: usize,
    existing_payload_hash: Option<&str>,
    payload_hash: &str,
    accepts_new_command: bool,
) -> (d: MoveCommandDecision)
    ensures
        d == move_command_decision_spec(
            path_ok,
            payload_len as nat,
            max_payload_len as nat,
            match existing_payload_hash {
                Some(h) => Some(h@),
                None => None,
            },
            payload_hash@,
            accepts_new_command,
        ),
{
    if let Err(e) = path_ok {
        return MoveCommandDecision::PathRejected(e);
    }
    if payload_len > max_payload_len {
        return MoveCommandDecision::PayloadTooLarge;
    }
    match nonce_replay(existing_payload_hash, payload_hash) {
        NonceReplay::Replay => MoveCommandDecision::Replay,
        NonceReplay::Mismatch => MoveCommandDecision::NonceMismatch,
        NonceReplay::Fresh => if accepts_new_command {
            MoveCommandDecision::Apply
        } else {
            MoveCommandDecision::NotAccepting
        },
    }
}

impl SessionTurnRuntime {
    /// `b` agrees with `a` on everything that recording a submitted intent
    /// leaves alone.
    pub open spec fn same_outside_submission(a: &Self, b: &Self) -> bool {
        &&& a.session_id == b.session_id
        &&& a.turn_number == b.turn_number
        &&& a.turn_started_at_ms == b.turn_started_at_ms
        &&& a.turn_deadline_at_ms == b.turn_deadline_at_ms
        &&& a.turn_duration_ms == b.turn_duration_ms
        &&& a.closing == b.closing
        &&& a.participants_complete == b.participants_complete
        &&& a.ready_complete == b.ready_complete
        &&& a.partial_cursor == b.partial_cursor
        &&& a.central_objectives_completed == b.central_objectives_completed
        &&& a.participants@ == b.participants@
        &&& a.ready_participants@ == b.ready_participants@
        &&& a.champion_snapshots@ == b.champion_snapshots@
        &&& a.champion_spell_snapshots@ == b.champion_spell_snapshots@
        &&& a.complete_champion_spellbooks@ == b.complete_champion_spellbooks@
        &&& a.world_object_snapshots@ == b.world_object_snapshots@
        &&& a.occupancy_index@ == b.occupancy_index@
        &&& a.contact_index@ == b.contact_index@
        &&& a.quest_snapshots@ == b.quest_snapshots@
        &&& a.scenario_rule_snapshots@ == b.scenario_rule_snapshots@
        &&& a.object_deltas@ == b.object_deltas@
        &&& a.resource_deltas@ == b.resource_deltas@
        &&& b.projection_checkpoint.flushed_generation == a.projection_checkpoint.flushed_generation
        &&& b.projection_checkpoint.flushed_at_ms == a.projection_checkpoint.flushed_at_ms
    }

    /// Whether `e` is the public submission event of `champion_id` in this
    /// turn, numbered `event_seq`, for the intent `intent_id` along a path
    /// of `path_len` steps.
    pub open spec fn is_submission_event(
        &self,
        e: RuntimeEventView,
        event_seq: u64,
        champion_id: Seq<char>,
        intent_id: Seq<char>,
        path_len: nat,
    ) -> bool {
        &&& e.session_id@ == self.session_id@
        &&& e.event_seq == event_seq
        &&& e.event_key@ == intent_event_key_spec(champion_id, self.turn_number)
        &&& e.audience_key@ == "public"@
        &&& e.turn_number == self.turn_number
        &&& e.event_type@ == "movement_intent_submitted"@
        &&& e.subject_kind matches Some(k) && k@ == "champion"@
        &&& e.subject_id_text matches Some(c) && c@ == champion_id
        &&& e.payload matches Some(p) && p@ == intent_event_payload_spec(intent_id, path_len)
        &&& !e.redacted
    }

    /// Records a submitted intent: stores `intent` (one per champion), then
    /// keeps the public submission event of the champion in this turn (the
    /// one already raised, else a new one under the next event sequence
    /// number, taken from `fresh` when the turn's block is used up, raised
    /// by `command_id`), then stores `receipt`. Answers the event. Each of
    /// these steps counts as one change of the runtime.
    #[verifier::rlimit(40)]
    pub fn record_submitted_intent(
        &mut self,
        intent: RuntimeMovementIntent,
        intent_id: &str,
        champion_id: &str,
        path_len: usize,
        command_id: &str,
        receipt: SessionTurnCommandReceipt,
        fresh: Option<SessionTurnEventSeqBlock>,
        now_ms: u64,
    ) -> (event: RuntimeEventView)
        requires
            old(self).wf(),
            find_first(
                old(self).active_events@,
                public_event_with_key(intent_event_key_spec(champion_id@, old(self).turn_number)),
            ) == -1 ==> {
                &&& fresh is None ==> (old(self).event_seq_block matches Some(b) && b.remaining() > 0)
                &&& fresh matches Some(b) ==> b.next_event_seq < b.exclusive_end_event_seq
            },
        ensures
            final(self).wf(),
            Self::same_outside_submission(old(self), final(self)),
            final(self).intents@ == upserted(old(self).intents@, intent),
            final(self).command_receipts@ == upserted(old(self).command_receipts@, receipt),
            ({
                let a = *old(self);
                let b = *final(self);
                let kernel = a.kernel();
                let key = intent_event_key_spec(champion_id@, a.turn_number);
                let k = find_first(a.active_events@, public_event_with_key(key));
                let g1 = generation_after(a.generation, 1);
                let q1 = record_dirty_spec(a.queue(), kernel, g1, ProjectionEntity::MovementIntent, intent.intent_id@, ProjectionDirtyOp::Upsert, PROJECTION_PRIORITY_NORMAL, now_ms);
                if k >= 0 {
                    let g2 = generation_after(a.generation, 2);
                    &&& event == a.active_events@[k].event
                    &&& b.active_events@ == a.active_events@
                    &&& b.event_seq_block == a.event_seq_block
                    &&& b.dirty == (SessionTurnDirtySets { intents: true, command_receipts: true, ..a.dirty })
                    &&& b.generation == g2
                    &&& b.queue() == record_dirty_spec(q1, kernel, g2, ProjectionEntity::CommandReceipt, receipt.command_id@, ProjectionDirtyOp::Upsert, PROJECTION_PRIORITY_NORMAL, now_ms)
                } else {
                    let block = match fresh {
                        Some(f) => f,
                        None => a.event_seq_block->0,
                    };
                    let g3 = generation_after(a.generation, 3);
                    let g4 = generation_after(a.generation, 4);
                    let q3 = record_dirty_spec(q1, kernel, g3, ProjectionEntity::Event, key, ProjectionDirtyOp::Upsert, PROJECTION_PRIORITY_NORMAL, now_ms);
                    &&& a.is_submission_event(event, block.next_event_seq, champion_id@, intent_id@, path_len as nat)
                    &&& b.active_events@.len() == a.active_events@.len() + 1
                    &&& b.active_events@.drop_last() == a.active_events@
                    &&& b.active_events@.last().event == event
                    &&& b.active_events@.last().command_id matches Some(c) && c@ == command_id@
                    &&& !b.active_events@.last().flushed
                    &&& b.event_seq_block == Some(SessionTurnEventSeqBlock { next_event_seq: (block.next_event_seq + 1) as u64, ..block })
                    &&& b.dirty == (SessionTurnDirtySets { intents: true, command_receipts: true, events: true, ..a.dirty })
                    &&& b.generation == g4
                    &&& b.queue() == record_dirty_spec(q3, kernel, g4, ProjectionEntity::CommandReceipt, receipt.command_id@, ProjectionDirtyOp::Upsert, PROJECTION_PRIORITY_NORMAL, now_ms)
                }
            }),
    {
        let turn_number = self.turn_number;
        self.upsert_intent(intent, now_ms);
        let key = intent_event_key(champion_id, turn_number);
        let event = match self.public_event_index(key.as_str()) {
            Some(index) => self.active_events[index].event.duplicate(),
            None => {
                let event_seq = self.reserve_session_event_seq(fresh);
                let event = RuntimeEventView {
                    session_id: self.session_id.clone(),
                    event_seq,
                    event_key: key,
                    audience_key: "public".to_string(),
                    turn_number,
                    event_type: "movement_intent_submitted".to_string(),
                    subject_kind: Some("champion".to_string()),
                    subject_id_text: Some(champion_id.to_string()),
                    payload: Some(intent_event_payload(intent_id, path_len)),
                    redacted: false,
                };
                proof {
                    reveal_strlit("public");
                    reveal_strlit("movement_intent_submitted");
                    reveal_strlit("champion");
                }
                self.push_event(
                    SessionTurnEvent {
                        command_id: Some(command_id.to_string()),
                        event: event.duplicate(),
                        flushed: false,
                    },
                    now_ms,
                );
                event
            },
        };
        self.insert_command_receipt(receipt, now_ms);
        proof {
            reveal_with_fuel(generation_after, 5);
        }
        event
    }
}

/// Whether a pending intent is loaded into the runtime of session
/// `session_id`: its participant, given as `(id, session_id, status)`, is
/// an active participant of the session, and its champion, given as
/// `(session_id, participant_id)`, belongs to the session and to that
/// participant. A participant or champion that was not found stops it.
pub fn pending_intent_applies(
    session_id: &str,
    participant: Option<(&str, &str, &str)>,
    champion: Option<(&str, &str)>,
) -> (applies: bool)
    ensures
        applies == {
            &&& participant matches Some((pid, psession, pstatus))
            &&& psession@ == session_id@
            &&& pstatus@ == "active"@
            &&& champion matches Some((csession, cparticipant))
            &&& csession@ == session_id@
            &&& cparticipant@ == pid@
        },
{
    let (pid, psession, pstatus) = match participant {
        Some(p) => p,
        None => return false,
    };
    if !str_eq(psession, session_id) || !str_eq(pstatus, "active") {
        return false;
    }
    let (csession, cparticipant) = match champion {
        Some(c) => c,
        None => return false,
    };
    str_eq(csession, session_id) && str_eq(cparticipant, pid)
}

/// The failed answer of a move command: `payload_too_large` for an
/// oversized payload, `duplicate_nonce_payload_mismatch` for a nonce used
/// with another payload (naming the nonce), neither retryable. Other
/// decisions have no failed answer: a refused path or a turn that takes no
/// new command is an error of the call, a replay answers the stored
/// response, and an applied command answers its result.
pub fn move_command_failure(decision: MoveCommandDecision, client_nonce: &str) -> (answer: Option<FailedCommandAnswer>)
    ensures
        match decision {
            MoveCommandDecision::PayloadTooLarge => answer matches Some(a) && a.is(
                "submit_move_intent"@,
                "payload_too_large"@,
                "game command payload is too large"@,
                false,
            ),
            MoveCommandDecision::NonceMismatch => answer matches Some(a) && a.is(
                "submit_move_intent"@,
                "duplicate_nonce_payload_mismatch"@,
                "client nonce "@ + client_nonce@ + " was reused with a different payload"@,
                false,
            ),
            _ => answer is None,
        },
{
    match decision {
        MoveCommandDecision::PayloadTooLarge => {
            let error = PublicError {
                code: "payload_too_large".to_string(),
                message: "game command payload is too large".to_string(),
                retryable: false,
            };
            Some(failed_command("submit_move_intent", error))
        },
        MoveCommandDecision::NonceMismatch => {
            let mut message = String::new();
            push_str(&mut message, "client nonce ");
            push_str(&mut message, client_nonce);
            push_str(&mut message, " was reused with a different payload");
            let error = PublicError {
                code: "duplicate_nonce_payload_mismatch".to_string(),
                message,
                retryable: false,
            };
            Some(failed_command("submit_move_intent", error))
        },
        _ => None,
    }
}

} // verus!
