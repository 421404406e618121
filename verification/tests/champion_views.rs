use degens::champion_views::{
    action_affordances, champion_summary_view, my_champion_views, ActionTarget, ChampionFacts,
    MAX_OWNED_CHAMPIONS_VIEW,
};

fn champion(id: &str, participant: &str, status: &str) -> ChampionFacts {
    ChampionFacts {
        champion_id: id.to_string(),
        session_id: "s-1".to_string(),
        participant_id: participant.to_string(),
        name: "Aria".to_string(),
        class_key: "knight".to_string(),
        status: status.to_string(),
        x: 3,
        y: 4,
        movement_remaining: 7,
        movement_max: 10,
        mana: 5,
        mana_max: 20,
        skill_points: 1,
        skill_keys: vec!["logistics".to_string()],
        vision_radius: 4,
    }
}

#[test]
fn champion_summaries_redact_skills_for_other_viewers() {
    let c = champion("c-1", "p-1", "active");
    let own = champion_summary_view(&c, true);
    assert_eq!(own.class_def_id, "class:knight");
    assert_eq!(own.skill_keys, vec!["logistics".to_string()]);
    assert_eq!(own.strength_label, "details_required");
    assert!(!own.redacted);
    assert_eq!(own.effective_movement, 7);
    let other = champion_summary_view(&c, false);
    assert!(other.skill_keys.is_empty());
    assert!(other.redacted);
}

#[test]
fn own_champion_list_keeps_active_champions_of_the_viewer() {
    let found = vec![
        Some(champion("c-1", "p-1", "active")),
        None,
        Some(champion("c-2", "p-2", "active")),
        Some(champion("c-3", "p-1", "defeated")),
        Some(champion("c-4", "p-1", "active")),
    ];
    let views = my_champion_views(&found, "s-1", "p-1");
    let ids: Vec<&str> = views.iter().map(|v| v.champion_id.as_str()).collect();
    assert_eq!(ids, vec!["c-1", "c-4"]);
    let many: Vec<Option<ChampionFacts>> =
        (0..20).map(|i| Some(champion(&format!("c-{i}"), "p-1", "active"))).collect();
    assert_eq!(my_champion_views(&many, "s-1", "p-1").len(), MAX_OWNED_CHAMPIONS_VIEW);
}

#[test]
fn affordances_cover_champions_then_towns() {
    let champions = vec![
        ActionTarget { id: "c-1".to_string(), status: "active".to_string() },
        ActionTarget { id: "c-2".to_string(), status: "in_battle".to_string() },
    ];
    let towns = vec![ActionTarget { id: "t-1".to_string(), status: "razed".to_string() }];
    let actions = action_affordances(&champions, &towns);
    assert_eq!(actions.len(), 4);
    assert_eq!(actions[0].action, "submit_move_intent");
    assert!(actions[0].enabled);
    assert_eq!(actions[1].disabled_reason.as_deref(), Some("in_battle"));
    assert_eq!(actions[2].action, "submit_build_town_structure");
    assert_eq!(actions[3].action, "submit_recruit_units");
    assert!(!actions[3].enabled);
    assert_eq!(actions[3].target_id.as_deref(), Some("t-1"));
    assert_eq!(actions[3].disabled_reason.as_deref(), Some("razed"));
}
