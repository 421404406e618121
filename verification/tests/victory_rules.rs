use degens::rule_eval::{
    apply_quest_claim, evaluate_rule, needs_claimed_quest_count, sync_rule_states, RuleState,
    SessionFacts,
};

fn rule(key: &str, required: u32, current: u32, state: &str, checked: u32, status: &str) -> RuleState {
    RuleState {
        rule_key: key.to_string(),
        required_value: required,
        current_value: current,
        victory_state: state.to_string(),
        winner_participant_id: None,
        last_checked_turn: checked,
        status: status.to_string(),
    }
}

fn session(turn: u32, winner: Option<&str>, objectives: u32, open: bool) -> SessionFacts {
    SessionFacts {
        current_turn: turn,
        winner_participant_id: winner.map(|w| w.to_string()),
        completed_objectives: objectives,
        runtime_open: open,
        max_turn_state: "active".to_string(),
    }
}

#[test]
fn conquest_rule_follows_the_session_winner() {
    let mut r = rule("rule:conquest", 1, 0, "active", 1, "active");
    let s = session(4, Some("participant-a"), 0, false);
    assert!(evaluate_rule(&mut r, &s, 0));
    assert_eq!(r.current_value, 1);
    assert_eq!(r.victory_state, "complete");
    assert_eq!(r.winner_participant_id.as_deref(), Some("participant-a"));
    assert_eq!(r.last_checked_turn, 4);
    // A second evaluation changes nothing.
    assert!(!evaluate_rule(&mut r, &s, 0));
}

#[test]
fn central_objectives_rule_counts_completed_objectives() {
    let mut r = rule("rule:central-objectives", 3, 1, "active", 2, "active");
    assert!(evaluate_rule(&mut r, &session(3, None, 2, false), 0));
    assert_eq!((r.current_value, r.victory_state.as_str()), (2, "active"));
    assert!(evaluate_rule(&mut r, &session(4, None, 3, false), 0));
    assert_eq!((r.current_value, r.victory_state.as_str()), (3, "complete"));
}

#[test]
fn quest_rule_keeps_its_count_inside_an_open_turn() {
    let r = rule("rule:quest-victory", 2, 1, "active", 5, "active");
    let open_turn = session(5, None, 0, true);
    assert!(!needs_claimed_quest_count(&r, &open_turn));
    let mut kept = rule("rule:quest-victory", 2, 1, "active", 5, "active");
    assert!(!evaluate_rule(&mut kept, &open_turn, 9));
    assert_eq!(kept.current_value, 1);
    let closed = session(6, None, 0, false);
    assert!(needs_claimed_quest_count(&r, &closed));
    let mut counted = rule("rule:quest-victory", 2, 1, "active", 5, "active");
    assert!(evaluate_rule(&mut counted, &closed, 2));
    assert_eq!((counted.current_value, counted.victory_state.as_str()), (2, "complete"));
}

#[test]
fn max_turn_rule_takes_the_current_turn_and_its_state() {
    let mut r = rule("rule:max-turn", 10, 3, "active", 3, "active");
    let mut s = session(10, None, 0, false);
    s.max_turn_state = "complete".to_string();
    assert!(evaluate_rule(&mut r, &s, 0));
    assert_eq!((r.current_value, r.victory_state.as_str()), (10, "complete"));
}

#[test]
fn unknown_rule_is_only_marked_checked() {
    let mut r = rule("rule:other", 1, 7, "active", 1, "active");
    assert!(!evaluate_rule(&mut r, &session(8, Some("p"), 5, false), 3));
    assert_eq!((r.current_value, r.last_checked_turn), (7, 8));
}

#[test]
fn sync_pass_skips_inactive_rules_and_stops_at_the_cap() {
    let mut rules = vec![
        rule("rule:central-objectives", 2, 0, "active", 0, "disabled"),
        rule("rule:central-objectives", 2, 0, "active", 0, "active"),
        rule("rule:max-turn", 9, 1, "active", 0, "active"),
        rule("rule:conquest", 1, 0, "active", 0, "active"),
    ];
    let pass = sync_rule_states(&mut rules, &session(2, Some("w"), 2, false), 0, 2);
    assert_eq!(pass.touched, 2);
    assert_eq!(pass.changed, vec![1, 2]);
    assert_eq!(rules[0].current_value, 0);
    assert_eq!(rules[0].last_checked_turn, 0);
    assert_eq!((rules[1].current_value, rules[1].victory_state.as_str()), (2, "complete"));
    assert_eq!(rules[2].current_value, 2);
    // Beyond the cap the conquest rule is left as it was.
    assert_eq!(rules[3].current_value, 0);
    assert_eq!(rules[3].winner_participant_id, None);
}

#[test]
fn sync_pass_with_zero_cap_still_checks_one_rule() {
    let mut rules = vec![
        rule("rule:max-turn", 9, 1, "active", 0, "active"),
        rule("rule:max-turn", 9, 1, "active", 0, "active"),
    ];
    let pass = sync_rule_states(&mut rules, &session(3, None, 0, false), 0, 0);
    assert_eq!(pass.touched, 1);
    assert_eq!(pass.changed, vec![0]);
    assert_eq!(rules[1].current_value, 1);
}

#[test]
fn quest_claim_steps_an_active_rule_and_saturates() {
    let mut r = rule("rule:quest-victory", 2, 1, "active", 0, "active");
    assert!(apply_quest_claim(&mut r, 7));
    assert_eq!((r.current_value, r.victory_state.as_str(), r.last_checked_turn), (2, "complete", 7));
    let mut top = rule("rule:quest-victory", u32::MAX, u32::MAX, "complete", 0, "active");
    assert!(!apply_quest_claim(&mut top, 8));
    assert_eq!(top.current_value, u32::MAX);
    let mut off = rule("rule:quest-victory", 2, 1, "active", 0, "disabled");
    assert!(!apply_quest_claim(&mut off, 9));
    assert_eq!((off.current_value, off.last_checked_turn), (1, 0));
}
