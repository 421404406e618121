use degens::dup::dup_vec;
use degens::event_seq::SessionTurnEventSeqBlock;
use degens::runtime::SessionTurnRuntime;
use degens::runtime_types::{
    ProjectionDirtyOp, ProjectionEntity, RuntimeEventView, RuntimeMovementIntent, SessionTurnEvent,
};
use degens::snapshot::RawSessionTurnRuntimeSnapshot;
use degens::store::RuntimeStore;

const NOW: u64 = 1_000;

fn runtime() -> SessionTurnRuntime {
    SessionTurnRuntime::new("session:1".to_string(), 2, 100, 200, 100)
}

fn event(event_seq: u64, audience_key: &str) -> SessionTurnEvent {
    SessionTurnEvent {
        command_id: Some("command:1".to_string()),
        event: RuntimeEventView {
            session_id: "session:1".to_string(),
            event_seq,
            event_key: format!("event:{event_seq}"),
            audience_key: audience_key.to_string(),
            turn_number: 2,
            event_type: "movement_intent_submitted".to_string(),
            subject_kind: Some("champion".to_string()),
            subject_id_text: Some("champion:1".to_string()),
            payload: None,
            redacted: false,
        },
        flushed: false,
    }
}

fn intent(command_id: &str, path_json: &str, path_hash: &str) -> RuntimeMovementIntent {
    RuntimeMovementIntent {
        intent_id: "intent:1".to_string(),
        command_id: command_id.to_string(),
        actor_participant_id: "participant:1".to_string(),
        champion_id: "champion:1".to_string(),
        path_json: path_json.to_string(),
        path_hash: path_hash.to_string(),
        status: "pending".to_string(),
    }
}

#[test]
fn runtime_store_round_trips_by_session_turn_key() {
    let mut store = RuntimeStore::new();
    store.clear_all_for_tests();
    let mut runtime = runtime();
    runtime.mark_ready("participant:1".to_string(), NOW);

    assert_eq!(store.active_runtime_count(), 0);
    assert!(store.insert_runtime(runtime).is_none());
    assert!(store.contains_runtime("session:1", 2));
    assert_eq!(
        store.get_runtime("session:1", 2).map(|runtime| runtime.ready_participants.len()),
        Some(1)
    );

    store.mark_participant_ready("session:1", 2, "participant:2".to_string(), NOW);
    assert_eq!(
        store.get_runtime("session:1", 2).map(|runtime| runtime.ready_participants.len()),
        Some(2)
    );
    assert!(store.remove_runtime("session:1", 2).is_some());
    assert_eq!(store.active_runtime_count(), 0);
}

#[test]
fn movement_intent_upsert_keeps_one_intent_per_champion() {
    let mut runtime = runtime();
    runtime.upsert_intent(intent("command:1", "1,1;2,1", "hash:1"), NOW);
    runtime.upsert_intent(intent("command:2", "1,1;1,2", "hash:2"), NOW);

    assert_eq!(runtime.intents.len(), 1);
    assert_eq!(runtime.intents[0].command_id, "command:2");
    assert!(runtime.dirty.intents);
}

#[test]
fn projection_dirty_queue_coalesces_entity_key_and_tracks_generation() {
    let mut runtime = runtime();
    runtime.upsert_intent(intent("command:1", "1,1;2,1", "hash:1"), NOW);
    runtime.upsert_intent(intent("command:2", "1,1;1,2", "hash:2"), NOW + 5);

    assert_eq!(runtime.generation, 2);
    assert_eq!(runtime.projection_dirty_queue.len(), 1);
    let dirty = &runtime.projection_dirty_queue[0];
    assert_eq!(dirty.kernel_id, runtime.key());
    assert_eq!(dirty.generation, runtime.generation);
    assert_eq!(dirty.entity, ProjectionEntity::MovementIntent);
    assert_eq!(dirty.key, "intent:1");
    assert_eq!(dirty.op, ProjectionDirtyOp::Upsert);
    assert!(dirty.last_dirty_at_ms >= dirty.first_dirty_at_ms);
}

#[test]
fn completing_event_projection_entry_removes_queue_and_hides_runtime_event() {
    let mut store = RuntimeStore::new();
    let mut runtime = runtime();
    runtime.push_event(event(10, "public"), NOW);
    let dirty = runtime.projection_dirty_queue[0].copy_entry();
    store.insert_runtime(runtime);

    store.complete_projection_dirty_entry(&dirty, NOW);

    assert!(store.projection_dirty_queue_snapshot().is_empty());
    assert!(store.active_events_after("session:1", "public", 9).is_empty());
}

#[test]
fn projection_checkpoint_advances_to_oldest_pending_generation() {
    let mut store = RuntimeStore::new();
    let mut runtime = runtime();
    runtime.upsert_intent(intent("command:1", "1,1;2,1", "hash:1"), NOW);
    runtime.push_event(event(10, "public"), NOW);
    let mut entries = dup_vec(&runtime.projection_dirty_queue);
    entries.sort_by_key(|entry| entry.generation);
    store.insert_runtime(runtime);

    store.complete_projection_dirty_entry(&entries[0], NOW);
    let checkpoints = store.projection_checkpoints_snapshot();
    assert_eq!(checkpoints.len(), 1);
    assert_eq!(checkpoints[0].flushed_generation, 1);
    assert_eq!(checkpoints[0].pending_entries, 1);

    store.complete_projection_dirty_entry(&entries[1], NOW);
    let checkpoints = store.projection_checkpoints_snapshot();
    assert_eq!(checkpoints[0].flushed_generation, 2);
    assert_eq!(checkpoints[0].pending_entries, 0);
}

#[test]
fn projection_diagnostics_report_queue_lag_and_checkpoint_state() {
    let mut store = RuntimeStore::new();
    let mut runtime = runtime();
    runtime.upsert_intent(intent("command:1", "1,1;2,1", "hash:1"), NOW);
    runtime.push_event(event(10, "public"), NOW);
    store.insert_runtime(runtime);

    let snapshot = store.projection_diagnostic_snapshot(NOW + 7);

    assert_eq!(snapshot.total_dirty_queue_len, 2);
    assert!(snapshot.oldest_dirty_age_ms.is_some());
    assert!(snapshot.last_flush.is_none());
    assert_eq!(snapshot.kernels.len(), 1);
    let kernel = &snapshot.kernels[0];
    assert_eq!(kernel.kernel_id, "session:1:2");
    assert_eq!(kernel.session_id, "session:1");
    assert_eq!(kernel.turn_number, 2);
    assert_eq!(kernel.dirty_queue_len, 2);
    assert_eq!(kernel.kernel_generation, 2);
    assert_eq!(kernel.flushed_generation, 0);
    assert_eq!(kernel.lag_generations, 2);
    assert_eq!(kernel.pending_entries, 2);
    assert!(kernel.oldest_dirty_age_ms.is_some());
}

#[test]
fn active_events_filter_by_session_audience_and_sequence() {
    let mut store = RuntimeStore::new();
    let mut runtime = runtime();
    runtime.push_event(event(10, "public"), NOW);
    runtime.push_event(event(11, "participant:1"), NOW);
    store.insert_runtime(runtime);

    let events = store.active_events_after("session:1", "public", 9);
    assert_eq!(events.len(), 1);
    assert_eq!(events[0].event_seq, 10);
    assert!(store.active_events_after("session:1", "public", 10).is_empty());
    assert!(store.active_events_after("session:2", "public", 9).is_empty());
}

#[test]
fn snapshot_restores_all_active_turns() {
    let mut store = RuntimeStore::new();
    store.insert_runtime(runtime());
    store.insert_runtime(SessionTurnRuntime::new("session:1".to_string(), 3, 200, 300, 100));

    let snapshot = store.snapshot_for_upgrade();
    store.clear_all_for_tests();
    let store = RuntimeStore::restore_from_upgrade(snapshot);

    assert_eq!(store.active_runtime_count(), 2);
    assert!(store.contains_runtime("session:1", 2));
    assert!(store.contains_runtime("session:1", 3));
}

#[test]
fn event_sequence_block_hands_out_reserved_range_only() {
    let mut block = SessionTurnEventSeqBlock {
        next_event_seq: 4,
        exclusive_end_event_seq: 6,
    };

    assert_eq!(block.take_event_seq(), Some(4));
    assert_eq!(block.take_event_seq(), Some(5));
    assert_eq!(block.take_event_seq(), None);
}

#[test]
fn upgrade_snapshot_encoding_preserves_dirty_queue_and_checkpoint() {
    let mut store = RuntimeStore::new();
    store.clear_all_for_tests();
    let mut runtime = runtime();
    runtime.upsert_intent(intent("command:1", "1,1;2,1", "hash:1"), NOW);
    runtime.push_event(event(10, "public"), NOW);
    store.insert_runtime(runtime);

    let snapshot = store.snapshot_for_upgrade();
    let mut restored = RuntimeStore::new();
    let mut cell = RawSessionTurnRuntimeSnapshot(vec![1]);
    assert_eq!(restored.restore_snapshot_after_upgrade(&mut cell, Ok(snapshot)), Ok(()));
    let decoded = restored.into_snapshot();

    assert_eq!(decoded.runtimes.len(), 1);
    let decoded_runtime = &decoded.runtimes[0];
    assert_eq!(decoded_runtime.active_events.len(), 1);
    assert_eq!(decoded_runtime.projection_dirty_queue.len(), 2);
    assert_eq!(decoded_runtime.projection_checkpoint.pending_entries, 2);
    assert_eq!(decoded_runtime.projection_checkpoint.kernel_id, decoded_runtime.key());
}
