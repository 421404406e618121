use degens::dup::dup_vec;
use degens::event_seq::{reserve_event_seq_block, EventSeqError, SessionTurnEventSeqBlock};
use degens::flush::{projection_flush_limit_reached, projection_flush_order};
use degens::runtime::SessionTurnRuntime;
use degens::runtime_types::{
    ChampionSnapshot, ProjectionDirtyEntry, ProjectionDirtyOp, ProjectionEntity,
    ProjectionFlushLimits, RuntimeChampionSpell, RuntimeContactCell, RuntimeMovementIntent,
    RuntimeOccupancyCell, SessionTurnParticipant, WorldObjectSnapshot,
};
use degens::snapshot::{
    persist_snapshot_for_upgrade, RawSessionTurnRuntimeSnapshot,
    MAX_SESSION_TURN_RUNTIME_SNAPSHOT_BYTES,
};
use degens::store::{ProjectionFlushOutcome, RuntimeStore, SessionTurnRuntimeSnapshot};
use degens::turn_setup::PreparedTurn;

const NOW: u64 = 5_000;

fn runtime(session_id: &str, turn: u32) -> SessionTurnRuntime {
    SessionTurnRuntime::new(session_id.to_string(), turn, 100, 200, 100)
}

fn participant(id: &str, status: &str, principal: Option<&str>) -> SessionTurnParticipant {
    SessionTurnParticipant {
        participant_id: id.to_string(),
        player_id: format!("player-of-{id}"),
        principal_text: principal.map(str::to_string),
        slot_index: 0,
        status: status.to_string(),
    }
}

fn intent(champion_id: &str, command_id: &str) -> RuntimeMovementIntent {
    RuntimeMovementIntent {
        intent_id: format!("intent:{champion_id}"),
        command_id: command_id.to_string(),
        actor_participant_id: "participant:1".to_string(),
        champion_id: champion_id.to_string(),
        path_json: "1,1".to_string(),
        path_hash: "hash".to_string(),
        status: "pending".to_string(),
    }
}

fn occupancy(x: u16, y: u16, layer: &str, occupant: &str) -> RuntimeOccupancyCell {
    RuntimeOccupancyCell {
        x,
        y,
        layer: layer.to_string(),
        occupant_kind: if layer == "champion" { "champion" } else { "town" }.to_string(),
        occupant_id_text: occupant.to_string(),
        owner_participant_id: None,
        blocking: true,
    }
}

#[test]
fn store_reads_back_what_was_written_and_keeps_key_order() {
    let mut store = RuntimeStore::new();
    assert!(store.insert_runtime(runtime("session:b", 1)).is_none());
    assert!(store.insert_runtime(runtime("session:a", 2)).is_none());
    assert!(store.insert_runtime(runtime("session:a", 10)).is_none());
    let keys: Vec<String> = store.runtimes.iter().map(|r| r.key()).collect();
    assert_eq!(keys, vec!["session:a:10", "session:a:2", "session:b:1"]);

    let mut replacement = runtime("session:a", 2);
    replacement.closing = true;
    let replaced = store.insert_runtime(replacement).expect("same key replaces");
    assert!(!replaced.closing);
    assert!(store.get_runtime("session:a", 2).unwrap().closing);
    assert!(!store.get_runtime("session:b", 1).unwrap().closing);
    assert_eq!(store.active_runtime_count(), 3);

    assert!(store.remove_runtime("session:a", 2).is_some());
    assert!(store.get_runtime("session:a", 2).is_none());
    assert!(store.remove_runtime("session:a", 2).is_none());
    assert!(store.contains_runtime("session:a", 10));
    assert_eq!(store.latest_turn_number_for_session("session:a"), Some(10));
    assert_eq!(store.latest_turn_number_for_session("session:c"), None);
}

#[test]
fn event_sequence_blocks_are_reserved_back_to_back() {
    let mut counter = 10u64;
    let first = reserve_event_seq_block(&mut counter).unwrap();
    let second = reserve_event_seq_block(&mut counter).unwrap();
    assert_eq!((first.next_event_seq, first.exclusive_end_event_seq), (10, 4_106));
    assert_eq!((second.next_event_seq, second.exclusive_end_event_seq), (4_106, 8_202));
    assert_eq!(counter, 8_202);

    let mut near_end = u64::MAX - 4_095;
    assert_eq!(reserve_event_seq_block(&mut near_end).err(), Some(EventSeqError::EventSequenceExhausted));
    assert_eq!(near_end, u64::MAX - 4_095);
    let mut last = u64::MAX - 4_096;
    assert!(reserve_event_seq_block(&mut last).is_ok());
    assert_eq!(last, u64::MAX);
}

#[test]
fn runtime_event_sequence_uses_its_block_then_a_fresh_one() {
    let mut r = runtime("session:1", 1);
    assert_eq!(r.event_seq_reservation(50).unwrap().map(|b| b.next_event_seq), Some(50));
    r.event_seq_block = Some(SessionTurnEventSeqBlock { next_event_seq: 7, exclusive_end_event_seq: 8 });
    assert!(r.event_seq_reservation(50).unwrap().is_none());
    assert_eq!(r.reserve_session_event_seq(None), 7);
    assert_eq!(r.generation, 1);
    assert!(!r.dirty.events);
    let fresh = r.event_seq_reservation(50).unwrap();
    assert_eq!(fresh.as_ref().map(|b| (b.next_event_seq, b.exclusive_end_event_seq)), Some((50, 4_146)));
    assert_eq!(r.reserve_session_event_seq(fresh), 50);
    let block = r.event_seq_block.as_ref().unwrap();
    assert_eq!((block.next_event_seq, block.exclusive_end_event_seq), (51, 4_146));
    assert!(r.dirty.events);
    assert_eq!(r.generation, 2);
    assert_eq!(r.event_seq_reservation(u64::MAX - 10).map(|b| b.is_none()), Ok(true));
    let mut spent = runtime("session:1", 1);
    spent.event_seq_block = Some(SessionTurnEventSeqBlock { next_event_seq: 3, exclusive_end_event_seq: 3 });
    assert_eq!(spent.event_seq_reservation(u64::MAX - 10).err(), Some(EventSeqError::EventSequenceExhausted));
}

#[test]
fn store_takes_reserved_sequence_numbers_only_for_active_turns() {
    let mut store = RuntimeStore::new();
    let mut r = runtime("session:1", 1);
    r.event_seq_block = Some(SessionTurnEventSeqBlock { next_event_seq: 4, exclusive_end_event_seq: 5 });
    store.insert_runtime(r);
    assert_eq!(store.take_reserved_session_event_seq("session:1", 1), Some(4));
    assert_eq!(store.take_reserved_session_event_seq("session:1", 1), None);
    assert_eq!(store.take_reserved_session_event_seq("session:1", 2), None);
}

#[test]
fn marking_ready_twice_changes_nothing_the_second_time() {
    let mut r = runtime("session:1", 1);
    assert!(r.mark_ready("participant:1".to_string(), NOW));
    let generation = r.generation;
    let queued = r.projection_dirty_queue.len();
    assert!(!r.mark_ready("participant:1".to_string(), NOW + 1));
    assert_eq!(r.generation, generation);
    assert_eq!(r.projection_dirty_queue.len(), queued);
    assert_eq!(r.ready_participants.len(), 1);
}

#[test]
fn dirty_queue_keeps_first_time_and_latest_operation() {
    let mut r = runtime("session:1", 1);
    r.upsert_occupancy_for_occupant(occupancy(3, 3, "champion", "champion:1"), NOW);
    r.remove_occupancy_for_occupant("champion", "champion:1", NOW + 10);
    assert!(r.occupancy_index.is_empty());
    assert_eq!(r.generation, 2);
    let tombstones: Vec<&ProjectionDirtyEntry> = r
        .projection_dirty_queue
        .iter()
        .filter(|e| e.op == ProjectionDirtyOp::Tombstone)
        .collect();
    assert_eq!(tombstones.len(), 1);
    assert_eq!(tombstones[0].key, "champion:champion:champion:1");
    r.upsert_intent(intent("champion:1", "command:1"), NOW);
    r.upsert_intent(intent("champion:1", "command:2"), NOW + 20);
    let entry = r
        .projection_dirty_queue
        .iter()
        .find(|e| e.entity == ProjectionEntity::MovementIntent)
        .unwrap();
    assert_eq!(entry.first_dirty_at_ms, NOW);
    assert_eq!(entry.last_dirty_at_ms, NOW + 20);
    assert_eq!(entry.generation, r.generation);
}

#[test]
fn checkpoint_reaches_the_generation_once_nothing_is_pending() {
    let mut r = runtime("session:1", 1);
    r.upsert_intent(intent("champion:1", "command:1"), NOW);
    r.upsert_intent(intent("champion:2", "command:2"), NOW);
    r.complete_projection_entry(ProjectionEntity::MovementIntent, "intent:champion:2", NOW);
    assert_eq!(r.projection_checkpoint.flushed_generation, 0);
    assert_eq!(r.projection_checkpoint.pending_entries, 1);
    r.complete_projection_entry(ProjectionEntity::MovementIntent, "intent:champion:1", NOW + 1);
    assert_eq!(r.projection_checkpoint.flushed_generation, 2);
    assert_eq!(r.projection_checkpoint.pending_entries, 0);
    assert_eq!(r.projection_checkpoint.flushed_at_ms, NOW + 1);
}

fn entry(kernel: &str, key: &str, priority: u8, first: u64) -> ProjectionDirtyEntry {
    ProjectionDirtyEntry {
        kernel_id: kernel.to_string(),
        generation: 1,
        entity: ProjectionEntity::Event,
        key: key.to_string(),
        op: ProjectionDirtyOp::Upsert,
        priority,
        first_dirty_at_ms: first,
        last_dirty_at_ms: first,
    }
}

#[test]
fn flush_order_is_priority_then_age_then_keys() {
    let entries = vec![
        entry("k:2", "b", 50, 10),
        entry("k:1", "z", 50, 10),
        entry("k:1", "a", 50, 10),
        entry("k:9", "x", 50, 5),
        entry("k:0", "y", 10, 99),
    ];
    let ordered: Vec<(String, String)> = projection_flush_order(entries)
        .into_iter()
        .map(|e| (e.kernel_id, e.key))
        .collect();
    assert_eq!(
        ordered,
        vec![
            ("k:0".to_string(), "y".to_string()),
            ("k:9".to_string(), "x".to_string()),
            ("k:1".to_string(), "a".to_string()),
            ("k:1".to_string(), "z".to_string()),
            ("k:2".to_string(), "b".to_string()),
        ]
    );
    assert!(projection_flush_order(Vec::new()).is_empty());
}

#[test]
fn flush_pass_stops_at_its_limits_and_counts_work() {
    let limits = ProjectionFlushLimits { max_rows: 2, max_instructions: 100, max_stable_pages_delta: 3 };
    let mut outcome = ProjectionFlushOutcome::start(5);
    assert!(!projection_flush_limit_reached(&limits, &outcome, 0, 0));
    assert!(projection_flush_limit_reached(&limits, &outcome, 100, 0));
    assert!(projection_flush_limit_reached(&limits, &outcome, 0, 3));
    outcome.record_flushed_entry(4);
    outcome.record_flushed_entry(usize::MAX);
    assert_eq!(outcome.entries_processed, 2);
    assert_eq!(outcome.rows_flushed, usize::MAX);
    assert!(projection_flush_limit_reached(&limits, &outcome, 0, 0));
    outcome.close(10, 1, 3, true);
    assert!(outcome.truncated);
    assert_eq!((outcome.instruction_delta, outcome.stable_pages_delta, outcome.queue_len_after), (10, 1, 3));
    let mut done = ProjectionFlushOutcome::start(1);
    done.close(1, 0, 0, true);
    assert!(!done.truncated);
    let unbounded = ProjectionFlushLimits::unbounded();
    assert!(!projection_flush_limit_reached(&unbounded, &done, u64::MAX - 1, 0));
}

#[test]
fn carrying_state_takes_active_participants_and_world_state() {
    let mut previous = runtime("session:1", 1);
    previous.upsert_participant(participant("participant:1", "active", Some("principal-1")), NOW);
    previous.upsert_participant(participant("participant:2", "eliminated", None), NOW);
    previous.upsert_champion_snapshot(
        ChampionSnapshot {
            champion_id: "champion:1".to_string(),
            participant_id: "participant:1".to_string(),
            x: 3,
            y: 4,
            status: "active".to_string(),
            movement_turn: 1,
            movement_remaining: 2,
            movement_max: 6,
        },
        NOW,
    );
    previous.upsert_champion_spell_snapshot(
        RuntimeChampionSpell {
            champion_id: "champion:1".to_string(),
            spell_id: "spell:1".to_string(),
            spell_slug: Some("spite-march".to_string()),
            learned_turn: 1,
            needs_flush: true,
        },
        NOW,
    );
    previous.mark_champion_spellbook_complete("champion:9".to_string(), NOW);
    previous.upsert_world_object_snapshot(
        WorldObjectSnapshot {
            object_id: "object:1".to_string(),
            x: 1,
            y: 1,
            state: "owned".to_string(),
            owner_participant_id: Some("participant:1".to_string()),
            guarded_neutral_army_id: None,
        },
        NOW,
    );
    previous.upsert_occupancy_for_occupant(occupancy(3, 4, "champion", "champion:1"), NOW);
    previous.upsert_occupancy_cell(occupancy(8, 8, "town", "town:1"), NOW);
    previous.upsert_contact_cell(
        RuntimeContactCell {
            x: 8,
            y: 8,
            subject_kind: "town".to_string(),
            subject_id_text: "town:1".to_string(),
            owner_participant_id: None,
            guarded_neutral_army_id: None,
            status: "active".to_string(),
        },
        NOW,
    );
    previous.participants_complete = true;

    let mut next = runtime("session:1", 2);
    // The champion stood elsewhere in the new turn's rows.
    next.upsert_occupancy_for_occupant(occupancy(9, 9, "champion", "champion:1"), NOW);
    next.upsert_participant(participant("participant:1", "active", None), NOW);
    next.carry_forward_runtime_state(&previous, NOW + 1);

    assert_eq!(next.participants.len(), 1);
    assert_eq!(next.participants[0].principal_text.as_deref(), Some("principal-1"));
    assert_eq!(next.champion_snapshots.len(), 1);
    assert_eq!(next.champion_spell_snapshots.len(), 1);
    let mut books = next.complete_champion_spellbooks.clone();
    books.sort();
    assert_eq!(books, vec!["champion:1".to_string(), "champion:9".to_string()]);
    assert_eq!(next.world_object_snapshots.len(), 1);
    let champion_cells: Vec<(u16, u16)> = next
        .occupancy_index
        .iter()
        .filter(|cell| cell.layer == "champion")
        .map(|cell| (cell.x, cell.y))
        .collect();
    assert_eq!(champion_cells, vec![(3, 4)]);
    assert_eq!(next.occupancy_index.len(), 2);
    assert_eq!(next.contact_index.len(), 1);
    assert!(next.participants_complete);
    assert!(next.ready_complete);
    assert!(next.dirty.participants && next.dirty.champion_snapshots && next.dirty.contact_index);
    assert!(!next.dirty.quest_snapshots);
    // Two rows of the new turn, then one change per carried record.
    assert_eq!(next.generation, 2 + 1 + 1 + 1 + 1 + 2 + 1);
    assert!(next.check_wf());
}

#[test]
fn preparing_turn_runtimes_reserves_blocks_and_carries_the_latest_earlier_turn() {
    let mut store = RuntimeStore::new();
    let mut earlier = runtime("session:1", 1);
    earlier.upsert_participant(participant("participant:1", "active", None), NOW);
    store.insert_runtime(earlier);
    let mut older = runtime("session:1", 0);
    older.upsert_participant(participant("participant:0", "active", None), NOW);
    store.insert_runtime(older);

    assert_eq!(store.latest_runtime_before("session:1", 3).map(|i| store.runtimes[i].turn_number), Some(1));
    assert_eq!(store.latest_runtime_before("session:1", 1).map(|i| store.runtimes[i].turn_number), Some(0));
    assert!(store.latest_runtime_before("session:1", 0).is_none());

    let mut counter = 100u64;
    assert!(store.prepare_active_turn_runtime("lobby", "session:1", 3, 0, 0, 0, &mut counter).unwrap().is_none());
    assert_eq!(counter, 100);
    assert!(store.prepare_active_turn_runtime("active", "session:1", 1, 0, 0, 0, &mut counter).unwrap().is_none());
    let mut fresh = store
        .prepare_active_turn_runtime("active", "session:1", 3, 10, 20, 30, &mut counter)
        .unwrap()
        .expect("a new turn gets a runtime");
    assert_eq!(counter, 4_196);
    let block = fresh.event_seq_block.as_ref().unwrap();
    assert_eq!((block.next_event_seq, block.exclusive_end_event_seq), (100, 4_196));
    assert_eq!((fresh.turn_started_at_ms, fresh.turn_deadline_at_ms, fresh.turn_duration_ms), (10, 20, 30));
    store.carry_from_latest_before(&mut fresh, NOW);
    assert_eq!(fresh.participants.len(), 1);
    assert_eq!(fresh.participants[0].participant_id, "participant:1");

    let mut exhausted = u64::MAX;
    assert_eq!(
        store.prepare_active_turn_runtime("active", "session:1", 4, 0, 0, 0, &mut exhausted).err(),
        Some(EventSeqError::EventSequenceExhausted)
    );
    assert_eq!(exhausted, u64::MAX);
}

#[test]
fn preparing_from_a_previous_turn_covers_each_case() {
    let mut store = RuntimeStore::new();
    let mut previous = runtime("session:1", 1);
    previous.upsert_participant(participant("participant:1", "active", None), NOW);
    store.insert_runtime(previous);
    let mut counter = 0u64;

    match store.prepare_active_turn_runtime_from_previous("active", "session:1", 2, 0, 0, 0, &mut counter, 1, NOW) {
        Ok(PreparedTurn::Ready(r)) => {
            assert_eq!(r.participants.len(), 1);
            assert_eq!(r.turn_number, 2);
            store.insert_runtime(r);
        }
        _ => panic!("a runtime built from the previous turn was expected"),
    }
    assert_eq!(counter, 4_096);
    match store.prepare_active_turn_runtime_from_previous("active", "session:1", 3, 0, 0, 0, &mut counter, 7, NOW) {
        Ok(PreparedTurn::NeedsRows(r)) => assert!(r.participants.is_empty()),
        _ => panic!("a fresh runtime was expected"),
    }
    assert!(matches!(
        store.prepare_active_turn_runtime_from_previous("ended", "session:1", 3, 0, 0, 0, &mut counter, 1, NOW),
        Ok(PreparedTurn::Nothing)
    ));
    // The current turn is open: the previous turn's state is carried into it.
    let mut more = runtime("session:1", 1);
    more.upsert_participant(participant("participant:5", "active", None), NOW);
    store.insert_runtime(more);
    let before = counter;
    assert!(matches!(
        store.prepare_active_turn_runtime_from_previous("active", "session:1", 2, 0, 0, 0, &mut counter, 1, NOW),
        Ok(PreparedTurn::Nothing)
    ));
    assert_eq!(counter, before);
    assert_eq!(store.get_runtime("session:1", 2).unwrap().participants.len(), 2);
}

#[test]
fn ensuring_a_turn_runtime_opens_it_once() {
    let mut store = RuntimeStore::new();
    let intents = vec![intent("champion:1", "command:1"), intent("champion:1", "command:2"), intent("champion:2", "command:3")];
    let existed = store.ensure_session_turn_runtime(
        "session:1",
        4,
        1,
        2,
        3,
        participant("participant:1", "active", Some("p")),
        &intents,
        NOW,
    );
    assert!(!existed);
    let r = store.get_runtime("session:1", 4).unwrap();
    assert_eq!(r.intents.len(), 2);
    assert_eq!(r.intents[0].command_id, "command:2");
    assert_eq!(r.participants.len(), 1);
    assert!(r.event_seq_block.is_none());
    let existed = store.ensure_session_turn_runtime(
        "session:1",
        4,
        1,
        2,
        3,
        participant("participant:2", "active", None),
        &Vec::new(),
        NOW,
    );
    assert!(existed);
    assert_eq!(store.get_runtime("session:1", 4).unwrap().participants.len(), 2);
}

#[test]
fn resource_changes_are_recorded_only_for_active_turns_and_known_resources() {
    let mut store = RuntimeStore::new();
    store.insert_runtime(runtime("session:1", 1));
    store.record_resource_delta("session:1", 1, "participant:1", "wood", -3, NOW);
    store.record_resource_delta("session:1", 1, "participant:1", "mana", 1, NOW);
    store.record_resource_delta("session:1", 2, "participant:1", "wood", 1, NOW);
    store.record_resource_ledger_delta(
        "session:1", 1, "participant:1", "command:1", "build:1:gold".to_string(), "gold", -50, 950, "build", NOW,
    );
    let r = store.get_runtime("session:1", 1).unwrap();
    assert_eq!(r.resource_deltas.len(), 2);
    assert_eq!(r.resource_deltas[0].wood, -3);
    let ledger = r.resource_deltas[1].ledger.as_ref().unwrap();
    assert_eq!((ledger.ledger_key.as_str(), ledger.balance_after, ledger.reason.as_str()), ("build:1:gold", 950, "build"));
    assert_eq!(r.resource_deltas[1].gold, -50);
    assert!(r.dirty.resource_deltas);
}

#[test]
fn persisting_a_snapshot_bounds_its_size() {
    let mut cell = RawSessionTurnRuntimeSnapshot::empty();
    assert_eq!(persist_snapshot_for_upgrade(&mut cell, Err("boom".to_string())), Err("boom".to_string()));
    assert!(cell.as_bytes().is_empty());
    assert_eq!(persist_snapshot_for_upgrade(&mut cell, Ok(vec![1, 2, 3])), Ok(()));
    assert_eq!(cell.as_bytes(), &[1, 2, 3]);
    let too_big = vec![0u8; MAX_SESSION_TURN_RUNTIME_SNAPSHOT_BYTES as usize + 1];
    assert_eq!(
        persist_snapshot_for_upgrade(&mut cell, Ok(too_big)),
        Err("session turn runtime snapshot exceeds 67108864 bytes: 67108865".to_string())
    );
    assert_eq!(cell.as_bytes(), &[1, 2, 3]);
}

#[test]
fn restoring_a_snapshot_checks_the_cell_and_restores_every_runtime() {
    let mut store = RuntimeStore::new();
    store.insert_runtime(runtime("session:old", 1));
    let mut empty = RawSessionTurnRuntimeSnapshot::empty();
    let snapshot = SessionTurnRuntimeSnapshot { runtimes: vec![runtime("session:1", 1)] };
    assert_eq!(store.restore_snapshot_after_upgrade(&mut empty, Ok(snapshot)), Ok(()));
    assert!(store.contains_runtime("session:old", 1));

    let mut cell = RawSessionTurnRuntimeSnapshot(vec![9]);
    assert_eq!(store.restore_snapshot_after_upgrade(&mut cell, Err("bad bytes".to_string())), Err("bad bytes".to_string()));
    assert_eq!(cell.as_bytes(), &[9]);

    let snapshot = SessionTurnRuntimeSnapshot { runtimes: vec![runtime("session:2", 5), runtime("session:1", 1), runtime("session:2", 5)] };
    assert_eq!(store.restore_snapshot_after_upgrade(&mut cell, Ok(snapshot)), Ok(()));
    assert!(cell.as_bytes().is_empty());
    assert!(!store.contains_runtime("session:old", 1));
    assert_eq!(store.active_runtime_count(), 2);
}

#[test]
fn restoring_a_snapshot_keeps_each_saved_runtime_as_saved() {
    let mut saved = RuntimeStore::new();
    let mut r = runtime("session:1", 1);
    r.upsert_intent(intent("champion:1", "command:1"), NOW);
    r.mark_ready("participant:1".to_string(), NOW);
    saved.insert_runtime(r);
    saved.insert_runtime(runtime("session:0", 3));
    let snapshot = saved.snapshot_for_upgrade();

    let mut store = RuntimeStore::new();
    store.insert_runtime(runtime("session:old", 1));
    let mut cell = RawSessionTurnRuntimeSnapshot(vec![9]);
    assert_eq!(store.restore_snapshot_after_upgrade(&mut cell, Ok(snapshot)), Ok(()));
    assert!(cell.as_bytes().is_empty());
    assert!(!store.contains_runtime("session:old", 1));
    assert_eq!(store.active_runtime_count(), 2);
    for (a, b) in saved.runtimes.iter().zip(store.runtimes.iter()) {
        assert_eq!(a.key(), b.key());
        assert_eq!(a.generation, b.generation);
        assert_eq!(a.intents.len(), b.intents.len());
        assert_eq!(a.ready_participants, b.ready_participants);
        assert_eq!(a.projection_dirty_queue.len(), b.projection_dirty_queue.len());
        assert_eq!(a.projection_checkpoint.pending_entries, b.projection_checkpoint.pending_entries);
    }
    let empty_again = SessionTurnRuntimeSnapshot { runtimes: vec![] };
    assert_eq!(store.restore_snapshot_after_upgrade(&mut cell, Ok(empty_again)), Ok(()));
    assert_eq!(store.active_runtime_count(), 2);
}

#[test]
fn upgrade_snapshot_round_trips_every_runtime() {
    let mut store = RuntimeStore::new();
    let mut r = runtime("session:1", 2);
    r.upsert_intent(intent("champion:1", "command:1"), NOW);
    r.mark_ready("participant:1".to_string(), NOW);
    store.insert_runtime(r);
    store.insert_runtime(runtime("session:0", 7));
    let snapshot = store.snapshot_for_upgrade();
    let restored = RuntimeStore::restore_from_upgrade(snapshot);
    assert_eq!(restored.active_runtime_count(), 2);
    for (a, b) in store.runtimes.iter().zip(restored.runtimes.iter()) {
        assert_eq!(a.key(), b.key());
        assert_eq!(a.generation, b.generation);
        assert_eq!(a.intents.len(), b.intents.len());
        assert_eq!(a.ready_participants, b.ready_participants);
        assert_eq!(a.projection_dirty_queue.len(), b.projection_dirty_queue.len());
        assert_eq!(a.projection_checkpoint.kernel_id, b.projection_checkpoint.kernel_id);
    }
    let copies = dup_vec(&store.runtimes[1].projection_dirty_queue);
    assert_eq!(copies.len(), 2);
}
