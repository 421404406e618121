use degens::event_seq::SessionTurnEventSeqBlock;
use degens::intent_submission::{
    intent_event_key, intent_event_payload, move_command_decision, move_command_failure,
    move_intent_payload_json, nonce_replay, pending_intent_applies, MoveCommandDecision, NonceReplay,
};
use degens::command_answer::{CommandPhase, CommandStatus};
use degens::movement_rules::MovementError;
use degens::runtime::SessionTurnRuntime;
use degens::runtime_types::{
    RuntimeEventView, RuntimeMovementIntent, SessionTurnCommandReceipt, SessionTurnEvent,
};

fn event(key: &str, audience: &str, seq: u64) -> SessionTurnEvent {
    SessionTurnEvent {
        command_id: None,
        event: RuntimeEventView {
            session_id: "s".to_string(),
            event_seq: seq,
            event_key: key.to_string(),
            audience_key: audience.to_string(),
            turn_number: 1,
            event_type: "movement_intent_submitted".to_string(),
            subject_kind: None,
            subject_id_text: None,
            payload: None,
            redacted: false,
        },
        flushed: false,
    }
}

#[test]
fn move_command_payload_and_event_texts() {
    assert_eq!(
        move_intent_payload_json("c\"1", "1,2;1,3"),
        "{\"champion_id\":\"c\\\"1\",\"path\":\"1,2;1,3\"}"
    );
    assert_eq!(intent_event_key("c-1", 12), "movement_intent:c-1:12");
    assert_eq!(intent_event_payload("i-9", 3), "{\"intent_id\":\"i-9\",\"path_len\":3}");
}

#[test]
fn repeated_nonces_replay_or_refuse() {
    assert_eq!(nonce_replay(None, "h"), NonceReplay::Fresh);
    assert_eq!(nonce_replay(Some("h"), "h"), NonceReplay::Replay);
    assert_eq!(nonce_replay(Some("g"), "h"), NonceReplay::Mismatch);
}

#[test]
fn the_submission_event_is_found_by_key_among_public_events() {
    let mut runtime = SessionTurnRuntime::new("s".to_string(), 1, 0, 10, 10);
    runtime.push_event(event("movement_intent:c-1:1", "participant:p", 1), 5);
    runtime.push_event(event("movement_intent:c-1:1", "public", 2), 5);
    assert_eq!(runtime.public_event_index("movement_intent:c-1:1"), Some(1));
    assert_eq!(runtime.public_event_index("movement_intent:c-2:1"), None);
}

#[test]
fn move_commands_are_checked_in_order() {
    let bad_path = Err(MovementError::MovementPathEmpty);
    assert_eq!(
        move_command_decision(bad_path, 999, 10, Some("g"), "h", false),
        MoveCommandDecision::PathRejected(MovementError::MovementPathEmpty)
    );
    assert_eq!(move_command_decision(Ok(()), 11, 10, Some("h"), "h", true), MoveCommandDecision::PayloadTooLarge);
    assert_eq!(move_command_decision(Ok(()), 10, 10, Some("h"), "h", false), MoveCommandDecision::Replay);
    assert_eq!(move_command_decision(Ok(()), 10, 10, Some("g"), "h", true), MoveCommandDecision::NonceMismatch);
    assert_eq!(move_command_decision(Ok(()), 10, 10, None, "h", false), MoveCommandDecision::NotAccepting);
    assert_eq!(move_command_decision(Ok(()), 10, 10, None, "h", true), MoveCommandDecision::Apply);
}

#[test]
fn pending_intents_load_only_for_active_owners() {
    let p = Some(("p-1", "s-1", "active"));
    let c = Some(("s-1", "p-1"));
    assert!(pending_intent_applies("s-1", p, c));
    assert!(!pending_intent_applies("s-1", None, c));
    assert!(!pending_intent_applies("s-1", Some(("p-1", "s-2", "active")), c));
    assert!(!pending_intent_applies("s-1", Some(("p-1", "s-1", "left")), c));
    assert!(!pending_intent_applies("s-1", p, None));
    assert!(!pending_intent_applies("s-1", p, Some(("s-2", "p-1"))));
    assert!(!pending_intent_applies("s-1", p, Some(("s-1", "p-2"))));
}

fn submitted_intent(command_id: &str) -> RuntimeMovementIntent {
    RuntimeMovementIntent {
        intent_id: "intent:1".to_string(),
        command_id: command_id.to_string(),
        actor_participant_id: "p-1".to_string(),
        champion_id: "c-1".to_string(),
        path_json: "1,1".to_string(),
        path_hash: "hash".to_string(),
        status: "pending".to_string(),
    }
}

fn receipt(command_id: &str, nonce: u64) -> SessionTurnCommandReceipt {
    SessionTurnCommandReceipt {
        command_id: command_id.to_string(),
        command_type: "submit_move_intent".to_string(),
        actor_participant_id: "p-1".to_string(),
        client_nonce_text: nonce.to_string(),
        client_nonce: nonce,
        turn_number: 3,
        payload_hash: "h".to_string(),
        payload_json: None,
        response_json: "{}".to_string(),
    }
}

#[test]
fn submitting_an_intent_keeps_one_event_per_champion_and_turn() {
    let mut r = SessionTurnRuntime::new("s-1".to_string(), 3, 100, 200, 100);
    let fresh = Some(SessionTurnEventSeqBlock { next_event_seq: 40, exclusive_end_event_seq: 50 });
    let first = r.record_submitted_intent(submitted_intent("cmd-1"), "intent:1", "c-1", 2, "cmd-1", receipt("cmd-1", 1), fresh, 7);
    assert_eq!(first.event_seq, 40);
    assert_eq!(first.event_key, "movement_intent:c-1:3");
    assert_eq!(first.payload.as_deref(), Some("{\"intent_id\":\"intent:1\",\"path_len\":2}"));
    assert_eq!(r.active_events.len(), 1);
    assert_eq!(r.active_events[0].command_id.as_deref(), Some("cmd-1"));
    assert_eq!(r.intents.len(), 1);
    assert_eq!(r.command_receipts.len(), 1);
    assert_eq!(r.generation, 4);
    let second = r.record_submitted_intent(submitted_intent("cmd-2"), "intent:1", "c-1", 5, "cmd-2", receipt("cmd-2", 2), None, 8);
    assert_eq!(second.event_seq, 40);
    assert_eq!(r.active_events.len(), 1);
    assert_eq!(r.intents.len(), 1);
    assert_eq!(r.intents[0].command_id, "cmd-2");
    assert_eq!(r.command_receipts.len(), 2);
    assert_eq!(r.generation, 6);
    assert!(r.check_wf());
}

#[test]
fn failed_move_commands_answer_their_public_error() {
    let too_large = move_command_failure(MoveCommandDecision::PayloadTooLarge, "7").unwrap();
    assert_eq!(too_large.command_type, "submit_move_intent");
    assert_eq!((too_large.status, too_large.phase, too_large.retryable), (CommandStatus::Failed, CommandPhase::Failed, false));
    assert_eq!(too_large.error.code, "payload_too_large");
    assert_eq!(too_large.error.message, "game command payload is too large");
    assert!(!too_large.error.retryable);
    let mismatch = move_command_failure(MoveCommandDecision::NonceMismatch, "42").unwrap();
    assert_eq!(mismatch.error.code, "duplicate_nonce_payload_mismatch");
    assert_eq!(mismatch.error.message, "client nonce 42 was reused with a different payload");
    assert!(move_command_failure(MoveCommandDecision::Replay, "42").is_none());
    assert!(move_command_failure(MoveCommandDecision::Apply, "42").is_none());
    assert!(move_command_failure(MoveCommandDecision::NotAccepting, "42").is_none());
}
