use degens::conflicts::{crossing_conflict_pairs, tile_conflict_losers};
use degens::json::{json_string_field, json_string_field_in, json_u32_field, known_redacted_json};
use degens::movement_rules::{
    chunk_coord, chunk_width, chunks_touched, effective_movement, is_adjacent_to,
    movement_cost_for_path, scenario_object_stop_reason, tile_conflict_winner,
    validate_path_adjacency, validate_path_bounds, validate_path_cost, validate_path_limit,
    MoveCandidate, MovementError,
};
use degens::movement_rules::chunk_cell_value;
use degens::partial_move::{
    fast_path_applies, movement_cursor_key, movement_cursor_payload, movement_sync_incomplete_key,
    parks_partial, remaining_path, remaining_path_text,
};
use degens::vision::vision_cells;
use degens::path_text::{parse_path_text, path_text, MoveCoord, PathTextError};
use degens::render_rules::{
    chunk_intersects_viewport, neutral_army_details_json, runtime_chunk_coord, strength_label,
    world_object_live_details_json,
};
use degens::resources::{
    apply_u32_delta, apply_u64_delta, income_due, income_gold, reward_amounts, ResourceBalances,
    ResourceError, MINE_GOLD_INCOME,
};
use degens::runtime_types::{
    resource_kind, resource_turn_delta, session_turn_participant, ChampionSnapshot, ResourceKind,
};
use degens::scenario_receipt::{gold_reward, receipt, receipt_json};
use degens::step_rules::{
    classify_step, step_ends_pass, step_outcome, stop_reason_of, ChampionCellFacts, StepBlock,
    TownCellFacts,
};
use degens::text::{decimal_string, escape_json, option_json, runtime_key};
use degens::turn_rules::{
    all_participants_ready, end_turn_event_payload, job_action, job_slots_left, later_ms,
    partial_turn_result_json, resolved_turn_result_json, should_yield_after_movement_events,
    sync_turn_gate, timestamp_to_u64, turn_job_decision, turn_job_key, turn_resolution_parks,
    run_until_idle, sync_turn_failure, IdleRun, JobTick, JobAction, SyncGate, TurnJobDecision, TurnSessionFacts, MAX_JOBS_PER_TICK,
};

fn c(x: u16, y: u16) -> MoveCoord {
    MoveCoord::new(x, y)
}

#[test]
fn escape_json_escapes_quotes_backslashes_and_control_characters() {
    assert_eq!(escape_json("plain"), "plain");
    assert_eq!(escape_json("a\"b\\c\nd\re\tf"), "a\\\"b\\\\c\\nd\\re\\tf");
    assert_eq!(escape_json(""), "");
}

#[test]
fn option_json_quotes_values_and_writes_null() {
    assert_eq!(option_json(Some("x\"y")), "\"x\\\"y\"");
    assert_eq!(option_json(None), "null");
}

#[test]
fn runtime_key_joins_session_and_turn() {
    assert_eq!(runtime_key("session:1", 2), "session:1:2");
    assert_eq!(runtime_key("", 0), ":0");
    assert_eq!(decimal_string(4_294_967_295), "4294967295");
    assert_eq!(decimal_string(0), "0");
}

#[test]
fn path_text_round_trips_and_rejects_bad_text() {
    let path = vec![c(1, 1), c(2, 1), c(65535, 0)];
    let text = path_text(&path);
    assert_eq!(text, "1,1;2,1;65535,0");
    assert_eq!(parse_path_text(&text), Ok(path));
    assert_eq!(parse_path_text("1,2"), Ok(vec![c(1, 2)]));
    assert_eq!(parse_path_text("1;2"), Err(PathTextError::InvalidMovementPath));
    assert_eq!(parse_path_text("65536,1"), Err(PathTextError::InvalidMovementPath));
    assert_eq!(parse_path_text("a,1"), Err(PathTextError::InvalidMovementPath));
}

#[test]
fn json_field_lookups_read_the_first_occurrence() {
    let json = r#"{"object_slug":"gold-mine","gold":250,"wood":"x","big":4294967296}"#;
    assert_eq!(json_string_field(json, "object_slug"), Some("gold-mine".to_string()));
    assert_eq!(json_string_field(json, "missing"), None);
    assert_eq!(json_string_field_in(None, "object_slug"), None);
    assert_eq!(json_u32_field(json, "gold"), 250);
    assert_eq!(json_u32_field(json, "wood"), 0);
    assert_eq!(json_u32_field(json, "big"), 0);
    assert_eq!(json_u32_field(json, "missing"), 0);
}

#[test]
fn known_redacted_json_escapes_both_values() {
    assert_eq!(
        known_redacted_json("neutral_army", "n\"1"),
        r#"{"type":"neutral_army","scenario_key":"n\"1","state":"last_known"}"#
    );
}

#[test]
fn path_validation_reports_each_error() {
    assert_eq!(validate_path_limit(&vec![], 3), Err(MovementError::MovementPathEmpty));
    assert_eq!(
        validate_path_limit(&vec![c(1, 1), c(2, 2), c(3, 3), c(4, 4)], 3),
        Err(MovementError::MovementPathTooLong { path_len: 4, max_len: 3 })
    );
    assert_eq!(validate_path_limit(&vec![c(1, 1)], 3), Ok(()));
    assert_eq!(validate_path_bounds(4, 4, &vec![c(3, 3)]), Ok(()));
    assert_eq!(
        validate_path_bounds(4, 4, &vec![c(3, 4)]),
        Err(MovementError::MovementPathOutOfBounds)
    );
    assert_eq!(validate_path_adjacency(0, 0, &vec![c(1, 1), c(1, 2)]), Ok(()));
    assert_eq!(
        validate_path_adjacency(0, 0, &vec![c(2, 0)]),
        Err(MovementError::MovementPathNotAdjacent)
    );
    assert_eq!(
        validate_path_adjacency(0, 0, &vec![c(0, 0)]),
        Err(MovementError::MovementPathNotAdjacent)
    );
    assert_eq!(
        validate_path_cost(&vec![0, 4], &vec![1, 1], 4, 10),
        Err(MovementError::MovementPathImpassable)
    );
    assert_eq!(
        validate_path_cost(&vec![0, 0], &vec![3, 4], 4, 6),
        Err(MovementError::MovementPathTooExpensive)
    );
    assert_eq!(validate_path_cost(&vec![0, 0], &vec![3, 4], 4, 7), Ok(7));
}

#[test]
fn movement_cost_saturates_and_adjacency_is_king_moves() {
    assert_eq!(movement_cost_for_path(&vec![]), 0);
    assert_eq!(movement_cost_for_path(&vec![200; 400]), u16::MAX);
    assert!(is_adjacent_to(c(5, 5), c(6, 6)));
    assert!(is_adjacent_to(c(0, 1), c(0, 0)));
    assert!(!is_adjacent_to(c(5, 5), c(5, 5)));
    assert!(!is_adjacent_to(c(5, 5), c(7, 5)));
}

#[test]
fn effective_movement_uses_remaining_only_in_the_same_turn() {
    let champion = ChampionSnapshot {
        champion_id: "champion:1".to_string(),
        participant_id: "participant:1".to_string(),
        x: 0,
        y: 0,
        status: "active".to_string(),
        movement_turn: 3,
        movement_remaining: 2,
        movement_max: 8,
    };
    assert_eq!(effective_movement(&champion, 3), 2);
    assert_eq!(effective_movement(&champion, 4), 8);
}

#[test]
fn chunk_arithmetic_clips_at_the_map_edge() {
    assert_eq!(chunk_coord(16, 33), 2);
    assert_eq!(chunk_width(40, 16, 0), 16);
    assert_eq!(chunk_width(40, 16, 2), 8);
    assert_eq!(chunk_width(40, 16, 3), 0);
    assert_eq!(chunks_touched(16, &vec![c(1, 1), c(2, 1), c(17, 1), c(3, 3)]), 2);
    assert_eq!(chunks_touched(16, &vec![]), 0);
    assert_eq!(runtime_chunk_coord(None, 33), 2);
    assert_eq!(runtime_chunk_coord(Some(0), 33), 33);
    assert_eq!(runtime_chunk_coord(Some(8), 33), 4);
}

#[test]
fn scenario_object_stop_reasons_by_slug() {
    assert_eq!(scenario_object_stop_reason("gold-mine"), "mine");
    assert_eq!(scenario_object_stop_reason("crystal-mine"), "mine");
    assert_eq!(scenario_object_stop_reason("misery-beacon"), "central_objective");
    assert_eq!(scenario_object_stop_reason("mudhook-den"), "external_dwelling");
    assert_eq!(scenario_object_stop_reason("chest"), "world_object");
}

fn candidate(pending_index: usize, from: MoveCoord, to: MoveCoord, remaining: u16, distance: u16, tie: u64) -> MoveCandidate {
    MoveCandidate {
        pending_index,
        from,
        to,
        movement_cost: 1,
        remaining_before: remaining,
        path_distance: distance,
        tie_break: tie,
    }
}

#[test]
fn tile_conflicts_keep_the_strongest_candidate() {
    let a = candidate(0, c(0, 0), c(5, 5), 3, 1, 9);
    let b = candidate(1, c(0, 1), c(5, 5), 4, 1, 0);
    let d = candidate(2, c(9, 9), c(8, 8), 1, 1, 0);
    let e = candidate(3, c(0, 2), c(5, 5), 4, 1, 7);
    let f = candidate(4, c(1, 0), c(2, 2), 1, 2, 0);
    let g = candidate(5, c(1, 1), c(2, 2), 1, 1, 0);
    assert_eq!(tile_conflict_winner(&vec![a, b, e]), e);
    let active = vec![a, b, d, e, f, g];
    // Tile (2,2) comes before (5,5); within a tile, by position.
    assert_eq!(tile_conflict_losers(&active), vec![4, 0, 1]);
    assert!(tile_conflict_losers(&vec![a, d]).is_empty());
}

#[test]
fn crossing_pairs_pair_each_candidate_once() {
    let a = candidate(0, c(1, 1), c(2, 1), 3, 1, 0);
    let b = candidate(1, c(2, 1), c(1, 1), 3, 1, 0);
    let d = candidate(2, c(2, 1), c(1, 1), 3, 1, 0);
    let e = candidate(3, c(7, 7), c(8, 8), 3, 1, 0);
    let f = candidate(4, c(8, 8), c(7, 7), 3, 1, 0);
    assert_eq!(crossing_conflict_pairs(&vec![a, b, d, e, f]), vec![(0, 1), (3, 4)]);
    assert!(crossing_conflict_pairs(&vec![a, e]).is_empty());
}

#[test]
fn step_classification_checks_budget_guard_champion_then_town() {
    let friendly = Some(ChampionCellFacts {
        blocking: true,
        is_mover: false,
        occupant_participant_id: Some("participant:1".to_string()),
    });
    let enemy = Some(ChampionCellFacts {
        blocking: true,
        is_mover: false,
        occupant_participant_id: Some("participant:2".to_string()),
    });
    let own_cell = Some(ChampionCellFacts {
        blocking: true,
        is_mover: true,
        occupant_participant_id: Some("participant:1".to_string()),
    });
    let enemy_town = Some(TownCellFacts {
        blocking: true,
        owner_participant_id: Some("participant:2".to_string()),
    });
    let free_town = Some(TownCellFacts { blocking: true, owner_participant_id: None });
    let me = "participant:1";
    assert_eq!(classify_step(5, 4, true, &enemy, &enemy_town, me), StepBlock::BudgetExhausted);
    assert_eq!(classify_step(1, 4, true, &enemy, &enemy_town, me), StepBlock::GuardedObject);
    assert_eq!(
        classify_step(1, 4, false, &enemy, &enemy_town, me),
        StepBlock::ChampionBlocker { enemy: true }
    );
    assert_eq!(
        classify_step(1, 4, false, &friendly, &None, me),
        StepBlock::ChampionBlocker { enemy: false }
    );
    assert_eq!(classify_step(1, 4, false, &own_cell, &enemy_town, me), StepBlock::Town { enemy: true });
    assert_eq!(classify_step(1, 4, false, &None, &free_town, me), StepBlock::Town { enemy: false });
    assert_eq!(classify_step(1, 4, false, &None, &None, me), StepBlock::Clear);
    assert_eq!(step_outcome(StepBlock::BudgetExhausted), "stopped_budget_exhausted");
    assert_eq!(step_outcome(StepBlock::ChampionBlocker { enemy: true }), "started_champion_battle");
    assert_eq!(step_outcome(StepBlock::Town { enemy: false }), "stopped_town_interaction");
    assert_eq!(stop_reason_of(StepBlock::GuardedObject), Some("guarded_object"));
    assert_eq!(stop_reason_of(StepBlock::ChampionBlocker { enemy: false }), Some("friendly_champion_blocker"));
    assert_eq!(stop_reason_of(StepBlock::BudgetExhausted), None);
    assert!(step_ends_pass(StepBlock::Town { enemy: true }));
    assert!(!step_ends_pass(StepBlock::Town { enemy: false }));
}

#[test]
fn resource_deltas_refuse_overdraft_and_overflow() {
    assert_eq!(apply_u64_delta(10, -10), Ok(0));
    assert_eq!(apply_u64_delta(10, -11), Err(ResourceError::InsufficientResources));
    assert_eq!(apply_u64_delta(u64::MAX - 1, 5), Ok(u64::MAX));
    assert_eq!(apply_u64_delta(5, i64::MIN), Err(ResourceError::InsufficientResources));
    assert_eq!(apply_u32_delta(u32::MAX, 1), Err(ResourceError::ResourceCapExceeded));
    assert_eq!(apply_u32_delta(7, -3), Ok(4));
    // A refund restores what a spend took.
    let spent = apply_u64_delta(100, -40).unwrap();
    assert_eq!(apply_u64_delta(spent, 40), Ok(100));
}

#[test]
fn resource_balances_apply_and_reconcile_by_name() {
    let mut b = ResourceBalances { gold: 100, wood: 5, stone: 0, iron: 0, crystal: 0, ember: 0, aether: 0 };
    assert_eq!(b.apply_resource_delta("wood", -5), Ok(0));
    assert_eq!(b.wood, 0);
    assert_eq!(b.apply_resource_delta("gold", -101), Err(ResourceError::InsufficientResources));
    assert_eq!(b.gold, 100);
    assert_eq!(b.apply_resource_delta("mana", 1), Err(ResourceError::UnknownResource));
    assert_eq!(b.reconcile_resource_balance("stone", 9), Ok(()));
    assert_eq!(b.stone, 9);
    assert_eq!(
        b.reconcile_resource_balance("iron", u64::from(u32::MAX) + 1),
        Err(ResourceError::ResourceCapExceeded)
    );
    assert_eq!(b.reconcile_resource_balance("gold", u64::MAX), Ok(()));
    assert_eq!(b.gold, u64::MAX);
}

#[test]
fn income_and_rewards() {
    assert_eq!(MINE_GOLD_INCOME, 250);
    assert_eq!(income_gold(5, &vec![1, 5, 6]), 500);
    assert_eq!(income_gold(5, &vec![]), 0);
    assert!(income_due(4, 5));
    assert!(!income_due(5, 5));
    assert_eq!(
        reward_amounts(r#"{"gold":100,"wood":0,"crystal":3}"#),
        vec![(ResourceKind::Gold, 100), (ResourceKind::Crystal, 3)]
    );
    assert_eq!(resource_kind("ember"), Some(ResourceKind::Ember));
    assert_eq!(resource_kind("Ember"), None);
    let delta = resource_turn_delta("participant:1", "iron", -4).unwrap();
    assert_eq!((delta.iron, delta.gold, delta.participant_id.as_str()), (-4, 0, "participant:1"));
    assert!(resource_turn_delta("participant:1", "mana", 1).is_none());
}

#[test]
fn turn_rules_gate_and_decide() {
    assert!(all_participants_ready(2, 2));
    assert!(!all_participants_ready(2, 1));
    assert!(!all_participants_ready(0, 0));
    assert_eq!(sync_turn_gate(10, 10, true), SyncGate::Due);
    assert_eq!(sync_turn_gate(9, 10, true), SyncGate::NotDue);
    assert_eq!(sync_turn_gate(9, 10, false), SyncGate::CheckReadiness);
    assert!(should_yield_after_movement_events(1));
    assert!(!should_yield_after_movement_events(0));
    assert!(turn_resolution_parks(false, 0));
    assert!(turn_resolution_parks(true, 2));
    assert!(!turn_resolution_parks(true, 0));
    let facts = TurnSessionFacts { active: true, current_turn: 4, turn_deadline_at_ms: 1_000 };
    assert_eq!(turn_job_decision(None, Some(4), "turn_resolution", 0), TurnJobDecision::FailMissingSession);
    assert_eq!(
        turn_job_decision(Some(TurnSessionFacts { active: false, ..facts }), Some(4), "turn_resolution", 0),
        TurnJobDecision::Complete
    );
    assert_eq!(turn_job_decision(Some(facts), Some(3), "turn_resolution", 0), TurnJobDecision::Complete);
    assert_eq!(
        turn_job_decision(Some(facts), Some(4), "turn_deadline", 999),
        TurnJobDecision::Reschedule { due_at_ms: 1_000 }
    );
    assert_eq!(turn_job_decision(Some(facts), Some(4), "turn_deadline", 1_000), TurnJobDecision::Resolve);
    assert_eq!(turn_job_decision(Some(facts), None, "turn_resolution", 0), TurnJobDecision::Resolve);
}

#[test]
fn job_dispatch_and_tick_budget() {
    assert_eq!(job_action("setup_session"), JobAction::SetupSession);
    assert_eq!(job_action("turn_deadline"), JobAction::TurnResolution);
    assert_eq!(job_action("battle_timeout"), JobAction::BattleTimeout);
    assert_eq!(job_action("battle_round_advance"), JobAction::BattleRoundAdvance);
    assert_eq!(job_action("world_events"), JobAction::ScenarioMaintenance);
    assert_eq!(job_action("nope"), JobAction::Unknown);
    assert_eq!(MAX_JOBS_PER_TICK, 8);
    assert_eq!(job_slots_left(3), Some(5));
    assert_eq!(job_slots_left(8), None);
    let mut run = IdleRun::new(3);
    assert!(run.wants_tick());
    assert!(run.record_tick(2));
    assert!(!run.record_tick(0));
    assert!(!run.wants_tick());
    assert_eq!(run.total, 2);
    let mut bounded = IdleRun::new(1);
    assert!(!bounded.record_tick(5));
    assert_eq!(bounded.total, 5);
}

#[test]
fn turn_texts_and_times() {
    assert_eq!(turn_job_key("turn_resolution", "s:1", 7), "turn_resolution:s:1:7");
    assert_eq!(
        end_turn_event_payload(3, 1, 2, false),
        r#"{"turn_number":3,"ready_count":1,"participant_count":2,"all_ready":false}"#
    );
    assert_eq!(
        partial_turn_result_json(9),
        r#"{"command_kind":"turn_resolution","current_turn":9,"partial":true}"#
    );
    assert_eq!(
        resolved_turn_result_json(9, 4),
        r#"{"command_kind":"turn_resolution","current_turn":9,"command_count":1,"event_count":4}"#
    );
    assert_eq!(later_ms(1_000, 60_000), 61_000);
    assert_eq!(later_ms(i64::MAX - 1, 60_000), i64::MAX);
    assert_eq!(later_ms(i64::MIN, -1), i64::MIN);
    assert_eq!(timestamp_to_u64(-5), 0);
    assert_eq!(timestamp_to_u64(42), 42);
}

#[test]
fn render_labels_and_viewport_overlap() {
    assert_eq!(strength_label(&vec![]), "none");
    assert_eq!(strength_label(&vec![10, 10]), "small");
    assert_eq!(strength_label(&vec![21]), "modest");
    assert_eq!(strength_label(&vec![60, 1]), "large");
    assert!(chunk_intersects_viewport(16, 1, 0, 16, 16, 20, 0, 5, 5));
    assert!(!chunk_intersects_viewport(16, 1, 0, 16, 16, 32, 0, 5, 5));
    assert!(!chunk_intersects_viewport(16, 1, 0, 16, 16, 0, 0, 16, 5));
    assert!(chunk_intersects_viewport(16, 0, 0, 16, 16, 0, 0, u16::MAX, u16::MAX));
}

#[test]
fn render_detail_texts() {
    assert_eq!(
        neutral_army_details_json("n\"1", "army:7", "idle"),
        r#"{"type":"neutral_army","scenario_key":"n\"1","neutral_army_id":"army:7","state":"idle"}"#
    );
    assert_eq!(
        world_object_live_details_json("o1", "object:2", Some(r#"{"object_slug":"gold-mine"}"#), "owned", "mine"),
        r#"{"type":"world_object","scenario_key":"o1","object_id":"object:2","object_slug":"gold-mine","state":"owned","scoring_kind":"mine"}"#
    );
    assert_eq!(
        world_object_live_details_json("o1", "object:2", None, "free", ""),
        r#"{"type":"world_object","scenario_key":"o1","object_id":"object:2","object_slug":"unknown","state":"free","scoring_kind":""}"#
    );
}

#[test]
fn scenario_receipt_json_and_gold_reward() {
    let with_resources = receipt(
        "command:1".to_string(),
        "claim_quest_reward",
        Some("opening".to_string()),
        None,
        None,
        Some("rule\"1".to_string()),
        5,
        150,
        "claimed".to_string(),
        Some(ResourceBalances { gold: 250, wood: 1, stone: 2, iron: 3, crystal: 4, ember: 5, aether: 6 }),
    );
    assert_eq!(
        receipt_json(&with_resources),
        r#"{"action":"claim_quest_reward","quest_key":"opening","objective_key":null,"event_key":null,"rule_key":"rule\"1","current_turn":5,"reward_gold":150,"state":"claimed","resources_after":{"gold":250,"wood":1,"stone":2,"iron":3,"crystal":4,"ember":5,"aether":6}}"#
    );
    let without = receipt("c".to_string(), "sync", None, None, None, None, 0, 0, "noop".to_string(), None);
    assert_eq!(
        receipt_json(&without),
        r#"{"action":"sync","quest_key":null,"objective_key":null,"event_key":null,"rule_key":null,"current_turn":0,"reward_gold":0,"state":"noop","resources_after":null}"#
    );
    assert_eq!(gold_reward(10, 5), (15, 5));
    assert_eq!(gold_reward(u64::MAX, 5), (u64::MAX, 5));
    assert_eq!(gold_reward(0, u64::MAX), (u64::MAX, i64::MAX));
}

#[test]
fn session_turn_participant_leaves_principal_unknown() {
    let p = session_turn_participant("participant:1", "player:1", 2, "active");
    assert_eq!(p.participant_id, "participant:1");
    assert_eq!(p.player_id, "player:1");
    assert_eq!(p.slot_index, 2);
    assert_eq!(p.status, "active");
    assert!(p.principal_text.is_none());
}

#[test]
fn chunk_cells_are_read_row_major() {
    let blob: Vec<u8> = (0..12).collect();
    // 4 cells per row, chunk size 4: cell (5, 2) is local (1, 2) -> 9.
    assert_eq!(chunk_cell_value(&blob, 4, 4, 5, 2), Some(9));
    assert_eq!(chunk_cell_value(&blob, 4, 4, 0, 3), None);
    assert_eq!(chunk_cell_value(&blob, 4, 3, 2, 3), Some(11));
}

#[test]
fn partial_movement_keeps_the_rest_of_its_path() {
    let path = vec![c(1, 1), c(2, 1), c(3, 1)];
    assert!(parks_partial(2, 3));
    assert!(!parks_partial(3, 3));
    assert!(!parks_partial(0, 3));
    assert_eq!(remaining_path(&path, 2), vec![c(3, 1)]);
    assert_eq!(remaining_path_text(&path, 1), "2,1;3,1");
    assert_eq!(remaining_path_text(&path, 3), "");
    assert_eq!(movement_cursor_payload(2, 1), r#"{"consumed_steps":2,"parked_intents":1}"#);
    assert_eq!(movement_cursor_key(7, 2), "movement_cursor:7:2");
    assert_eq!(movement_sync_incomplete_key("s:1", 7, "fast"), "movement_sync_incomplete:s:1:7:fast");
    assert!(fast_path_applies(1, 5, false));
    assert!(fast_path_applies(1, 2, true));
    assert!(!fast_path_applies(1, 4, false));
    assert!(!fast_path_applies(2, 9, true));
}

#[test]
fn vision_is_a_diamond_clipped_to_the_map() {
    assert_eq!(vision_cells(1, 1, 1, 3, 3), vec![c(1, 0), c(0, 1), c(1, 1), c(2, 1), c(1, 2)]);
    assert_eq!(vision_cells(0, 0, 1, 3, 3), vec![c(0, 0), c(1, 0), c(0, 1)]);
    assert_eq!(vision_cells(1, 1, 0, 3, 3), vec![c(1, 1)]);
    assert_eq!(vision_cells(5, 5, 2, 3, 3), vec![]);
    assert_eq!(vision_cells(0, 0, 3, 65535, 65535).len(), 10);
}

#[test]
fn cell_positions_in_chunk_blobs() {
    assert_eq!(degens::movement_rules::cell_index_in_chunk(16, 8, 33, 17), 9);
    assert_eq!(degens::movement_rules::cell_index_in_chunk(4, 4, 3, 3), 15);
}

#[test]
fn running_until_idle_stops_at_an_idle_tick_an_error_or_the_tick_limit() {
    let ok = |n: u32| Ok::<u32, String>(n);
    assert_eq!(run_until_idle(0, &vec![ok(8), ok(8)]), Ok(0));
    assert_eq!(run_until_idle(5, &vec![ok(8), ok(3), ok(0), ok(8)]), Ok(11));
    assert_eq!(run_until_idle(2, &vec![ok(8), ok(8), ok(8)]), Ok(16));
    assert!(run_until_idle(3, &vec![ok(8), ok(8), ok(8)]).unwrap() <= MAX_JOBS_PER_TICK * 3);
    assert_eq!(
        run_until_idle(4, &vec![ok(2), Err("storage".to_string()), ok(8)]),
        Err("storage".to_string())
    );
    assert_eq!(run_until_idle(4, &vec![ok(2), ok(0), Err("late".to_string())]), Ok(2));
    assert_eq!(run_until_idle(3, &vec![ok(u32::MAX), ok(1)]), Ok(u32::MAX));
}

#[test]
fn a_sync_that_is_not_due_answers_turn_not_due() {
    let not_due = sync_turn_failure(SyncGate::NotDue, true).unwrap();
    assert_eq!(not_due.command_type, "sync_session_turn");
    assert_eq!(not_due.error.code, "turn_not_due");
    assert_eq!(not_due.error.message, "turn deadline has not elapsed");
    assert!(!not_due.retryable);
    assert!(sync_turn_failure(SyncGate::CheckReadiness, false).is_some());
    assert!(sync_turn_failure(SyncGate::CheckReadiness, true).is_none());
    assert!(sync_turn_failure(SyncGate::Due, false).is_none());
}

#[test]
fn a_tick_runs_at_most_its_job_slots() {
    let mut tick = JobTick::new();
    let mut tried = 0;
    while tick.slots_left().is_some() {
        tick.record_job(tried % 3 != 0);
        tried += 1;
    }
    assert_eq!(tick.processed, MAX_JOBS_PER_TICK);
    assert_eq!(tried, 12);
    assert_eq!(tick.slots_left(), None);
}
