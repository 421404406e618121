use degens::maintenance::{
    count_claimed_quests, initial_rule_seeds, maintenance_result_json, maintenance_start,
    maintenance_work, missing_session_message, next_maintenance_job, summarize_objectives,
    system_command_payload, unsupported_kind_message, MaintenanceStart, MaintenanceWork,
};
use degens::turn_rules::TurnSessionFacts;

fn session(active: bool, turn: u32) -> Option<TurnSessionFacts> {
    Some(TurnSessionFacts { active, current_turn: turn, turn_deadline_at_ms: 0 })
}

#[test]
fn maintenance_job_start_decisions() {
    assert_eq!(maintenance_start(None, Some(1)), MaintenanceStart::FailMissingSession);
    assert_eq!(maintenance_start(session(false, 1), Some(1)), MaintenanceStart::Complete);
    assert_eq!(maintenance_start(session(true, 2), Some(1)), MaintenanceStart::Complete);
    assert_eq!(maintenance_start(session(true, 2), Some(2)), MaintenanceStart::Proceed);
    assert_eq!(maintenance_start(session(true, 2), None), MaintenanceStart::Proceed);
    assert_eq!(missing_session_message(), "scenario maintenance session row not found");
    assert_eq!(unsupported_kind_message(), "unsupported scenario maintenance job kind");
}

#[test]
fn maintenance_kinds_and_their_successors() {
    assert_eq!(maintenance_work("scenario_objectives"), MaintenanceWork::Objectives);
    assert_eq!(maintenance_work("world_events"), MaintenanceWork::WorldEvents);
    assert_eq!(maintenance_work("advanced_victory"), MaintenanceWork::AdvancedVictory);
    assert_eq!(maintenance_work("turn_deadline"), MaintenanceWork::Unsupported);
    assert_eq!(next_maintenance_job("scenario_objectives"), Some("world_events"));
    assert_eq!(next_maintenance_job("world_events"), Some("advanced_victory"));
    assert_eq!(next_maintenance_job("advanced_victory"), None);
}

#[test]
fn maintenance_command_texts() {
    assert_eq!(
        maintenance_result_json("world_events", 7, 1),
        "{\"command_kind\":\"world_events\",\"current_turn\":7,\"touched\":1,\"command_count\":1,\"event_count\":0}"
    );
    assert_eq!(
        system_command_payload("advanced_victory:s\"1:4", "advanced_victory", 4),
        "{\"job_key\":\"advanced_victory:s\\\"1:4\",\"job_kind\":\"advanced_victory\",\"turn_number\":4}"
    );
}

#[test]
fn objective_and_quest_tallies() {
    let summary = summarize_objectives(&vec![true, false, true]);
    assert_eq!((summary.touched, summary.completed), (3, 2));
    let statuses = vec!["claimed".to_string(), "available".to_string(), "claimed".to_string()];
    assert_eq!(count_claimed_quests(&statuses), 2);
    assert_eq!(count_claimed_quests(&Vec::new()), 0);
}

#[test]
fn sessions_start_with_eight_victory_rules() {
    let seeds = initial_rule_seeds(30);
    assert_eq!(seeds.len(), 8);
    assert_eq!(seeds[0].rule_key, "rule:conquest");
    assert_eq!(seeds[1].required_value, 2);
    assert_eq!(seeds[2].rule_type, "quest_victory");
    assert_eq!((seeds[3].rule_key, seeds[3].required_value), ("rule:max-turn", 30));
    assert_eq!(seeds[4].status, "disabled");
    assert_eq!(seeds[7].disabled_reason, Some("checkpoint_24_schema_only"));
    assert!(seeds[..4].iter().all(|s| s.status == "active" && s.disabled_reason.is_none()));
}
