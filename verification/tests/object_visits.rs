use degens::object_interaction::{
    revealed_scenario_key, visit_event_type, visit_world_object, ObjectVisit, WorldObjectState,
};

fn object(kind: &str, state: &str, owner: Option<&str>) -> WorldObjectState {
    WorldObjectState {
        state: state.to_string(),
        scoring_kind: kind.to_string(),
        owner_participant_id: owner.map(|o| o.to_string()),
        guarded: false,
        captured_turn: 0,
        income_started_turn: 0,
        last_visited_turn: 0,
        last_command_id: None,
        instance_json: Some("{\"scenario_key\":\"mine:north\"}".to_string()),
    }
}

#[test]
fn visiting_a_mine_captures_it_for_the_next_turn() {
    let mut mine = object("mine", "available", Some("p-2"));
    let visit = visit_world_object(&mut mine, "p-1", "cmd-1", 4);
    assert_eq!(visit, ObjectVisit::MineCaptured);
    assert_eq!(mine.owner_participant_id.as_deref(), Some("p-1"));
    assert_eq!((mine.state.as_str(), mine.captured_turn, mine.income_started_turn), ("captured", 4, 5));
    assert_eq!(mine.last_command_id.as_deref(), Some("cmd-1"));
    assert_eq!(visit_event_type(visit), Some("mine_captured"));
    assert_eq!(revealed_scenario_key(visit, mine.instance_json.as_deref()).as_deref(), Some("mine:north"));
    // Visiting it again as its owner only ends the move.
    assert_eq!(visit_world_object(&mut mine, "p-1", "cmd-2", 5), ObjectVisit::Blocked);
    assert_eq!(mine.last_command_id.as_deref(), Some("cmd-1"));
}

#[test]
fn capture_in_the_last_turn_saturates() {
    let mut mine = object("mine", "available", None);
    visit_world_object(&mut mine, "p-1", "cmd", u32::MAX);
    assert_eq!(mine.income_started_turn, u32::MAX);
}

#[test]
fn piles_are_collected_once_and_guarded_objects_block() {
    let mut pile = object("resource_pile", "available", None);
    let visit = visit_world_object(&mut pile, "p-1", "cmd", 2);
    assert_eq!(visit, ObjectVisit::PickedUp);
    assert_eq!(pile.state, "collected");
    assert_eq!(visit_event_type(visit), Some("resource_picked_up"));
    assert_eq!(revealed_scenario_key(visit, pile.instance_json.as_deref()), None);
    assert_eq!(visit_world_object(&mut pile, "p-2", "cmd", 3), ObjectVisit::Blocked);
    let mut guarded = object("shrine", "available", None);
    guarded.guarded = true;
    assert_eq!(visit_world_object(&mut guarded, "p-1", "cmd", 2), ObjectVisit::Blocked);
    assert_eq!(guarded.last_visited_turn, 0);
    let mut shrine = object("shrine", "available", None);
    let visit = visit_world_object(&mut shrine, "p-1", "cmd", 6);
    assert_eq!(visit, ObjectVisit::Visited);
    assert_eq!((shrine.state.as_str(), shrine.last_visited_turn), ("available", 6));
    assert_eq!(visit_event_type(ObjectVisit::Blocked), None);
}
