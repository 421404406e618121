use degens::runtime::SessionTurnRuntime;
use degens::runtime_types::{ChampionSnapshot, SessionTurnParticipant, WorldObjectSnapshot};
use degens::store::RuntimeStore;

fn runtime(session_id: &str, turn: u32) -> SessionTurnRuntime {
    SessionTurnRuntime::new(session_id.to_string(), turn, 100, 200, 100)
}

fn champion(id: &str, x: u16, status: &str) -> ChampionSnapshot {
    ChampionSnapshot {
        champion_id: id.to_string(),
        participant_id: "p-1".to_string(),
        x,
        y: 1,
        status: status.to_string(),
        movement_turn: 1,
        movement_remaining: 3,
        movement_max: 5,
    }
}

fn object(id: &str, x: u16, state: &str) -> WorldObjectSnapshot {
    WorldObjectSnapshot {
        object_id: id.to_string(),
        x,
        y: 2,
        state: state.to_string(),
        owner_participant_id: None,
        guarded_neutral_army_id: None,
    }
}

#[test]
fn reads_come_from_the_latest_turn_of_the_session() {
    let mut store = RuntimeStore::new();
    let mut older = runtime("s-1", 2);
    older.upsert_champion_snapshot(champion("c-1", 1, "active"), 0);
    let mut newer = runtime("s-1", 3);
    newer.upsert_champion_snapshot(champion("c-1", 2, "active"), 0);
    newer.upsert_world_object_snapshot(object("o-1", 4, "available"), 0);
    newer.upsert_participant(
        SessionTurnParticipant {
            participant_id: "p-1".to_string(),
            player_id: "pl-1".to_string(),
            principal_text: None,
            slot_index: 0,
            status: "active".to_string(),
        },
        0,
    );
    store.insert_runtime(older);
    store.insert_runtime(newer);
    store.insert_runtime(runtime("s-2", 9));
    assert_eq!(store.latest_runtime("s-1").map(|r| r.turn_number), Some(3));
    assert_eq!(store.champion_snapshot("s-1", "c-1").map(|c| c.x), Some(2));
    assert!(store.champion_snapshot("s-2", "c-1").is_none());
    assert_eq!(store.world_object_at("s-1", 4, 2).map(|o| o.map(|o| o.object_id)), Some(Some("o-1".to_string())));
    assert_eq!(store.world_object_at("s-1", 5, 2).map(|o| o.is_none()), Some(true));
    assert!(store.world_object_at("s-3", 4, 2).is_none());
    assert_eq!(store.world_object_by_id("s-1", "o-1").map(|o| o.x), Some(4));
    assert_eq!(store.world_object_snapshots("s-1").len(), 1);
    assert!(store.world_object_snapshots("s-2").is_empty());
    assert_eq!(store.participant_snapshot("s-1", "p-1").map(|p| p.player_id), Some("pl-1".to_string()));
}

#[test]
fn mirrored_champions_move_their_occupancy_in_every_turn_of_the_session() {
    let mut store = RuntimeStore::new();
    store.insert_runtime(runtime("s-1", 2));
    store.insert_runtime(runtime("s-1", 3));
    store.insert_runtime(runtime("s-2", 3));
    store.mirror_champion_update("s-1", &champion("c-1", 6, "active"), 10);
    for r in store.runtimes.iter() {
        if r.session_id == "s-1" {
            assert_eq!(r.champion_snapshots.len(), 1);
            assert_eq!(r.occupancy_index.len(), 1);
            assert_eq!((r.occupancy_index[0].x, r.occupancy_index[0].blocking), (6, true));
            assert_eq!(r.occupancy_index[0].layer, "champion");
        } else {
            assert!(r.champion_snapshots.is_empty());
            assert!(r.occupancy_index.is_empty());
        }
    }
    store.mirror_champion_update("s-1", &champion("c-1", 6, "in_battle"), 11);
    assert!(!store.runtimes[0].occupancy_index[0].blocking);
    store.mirror_champion_update("s-1", &champion("c-1", 6, "defeated"), 12);
    assert!(store.runtimes[0].occupancy_index.is_empty());
    assert_eq!(store.runtimes[0].champion_snapshots[0].status, "defeated");
}

#[test]
fn mirrored_world_objects_record_a_change_and_a_contact() {
    let mut store = RuntimeStore::new();
    store.insert_runtime(runtime("s-1", 2));
    store.mirror_world_object_update("s-1", &object("o-1", 3, "collected"), 10);
    let r = &store.runtimes[0];
    assert_eq!(r.world_object_snapshots.len(), 1);
    assert_eq!(r.object_deltas.len(), 1);
    assert!(!r.object_deltas[0].visible);
    assert_eq!(r.object_deltas[0].subject_kind, "world_object");
    assert_eq!(r.contact_index.len(), 1);
    assert_eq!(r.contact_index[0].status, "collected");
}

#[test]
fn mirrored_participants_keep_their_known_principal() {
    let mut store = RuntimeStore::new();
    let mut r = runtime("s-1", 2);
    r.upsert_participant(
        SessionTurnParticipant {
            participant_id: "p-1".to_string(),
            player_id: "pl-1".to_string(),
            principal_text: Some("principal-1".to_string()),
            slot_index: 0,
            status: "active".to_string(),
        },
        0,
    );
    store.insert_runtime(r);
    store.mirror_participant_update(
        "s-1",
        &SessionTurnParticipant {
            participant_id: "p-1".to_string(),
            player_id: "pl-1".to_string(),
            principal_text: None,
            slot_index: 0,
            status: "defeated".to_string(),
        },
        5,
    );
    let p = store.participant_snapshot("s-1", "p-1").unwrap();
    assert_eq!(p.status, "defeated");
    assert_eq!(p.principal_text.as_deref(), Some("principal-1"));
}

fn spell(champion: &str, id: &str, slug: Option<&str>) -> degens::runtime_types::RuntimeChampionSpell {
    degens::runtime_types::RuntimeChampionSpell {
        champion_id: champion.to_string(),
        spell_id: id.to_string(),
        spell_slug: slug.map(|s| s.to_string()),
        learned_turn: 1,
        needs_flush: false,
    }
}

#[test]
fn spell_slugs_come_sorted_once_the_spellbook_is_complete() {
    let mut r = runtime("s-1", 2);
    r.upsert_champion_spell_snapshot(spell("c-1", "sp-1", Some("sleet")), 0);
    r.upsert_champion_spell_snapshot(spell("c-1", "sp-2", Some("ash-ward")), 0);
    r.upsert_champion_spell_snapshot(spell("c-1", "sp-3", None), 0);
    r.upsert_champion_spell_snapshot(spell("c-2", "sp-4", Some("bolt")), 0);
    // A learned spell marks its champion's spellbook complete.
    assert_eq!(r.champion_spell_slugs_if_complete("c-3"), None);
    r.mark_champion_spellbook_complete("c-3".to_string(), 0);
    assert_eq!(r.champion_spell_slugs_if_complete("c-3"), Some(Vec::new()));
    assert_eq!(
        r.champion_spell_slugs_if_complete("c-1"),
        Some(vec!["ash-ward".to_string(), "sleet".to_string()])
    );
    let mut store = RuntimeStore::new();
    store.insert_runtime(r);
    assert!(store.runtime_learned_champion_spell("s-1", "c-2", "bolt"));
    assert!(!store.runtime_learned_champion_spell("s-1", "c-1", "bolt"));
    assert!(!store.runtime_learned_champion_spell("s-9", "c-2", "bolt"));
    assert_eq!(store.runtime_champion_spell_slugs_if_complete("s-1", 2, "c-1").map(|v| v.len()), Some(2));
    assert_eq!(store.runtime_champion_spell_slugs_if_complete("s-1", 3, "c-1"), None);
}

#[test]
fn readiness_counts_need_complete_participant_and_ready_rows() {
    let mut r = runtime("s-1", 2);
    for (id, status) in [("p-1", "active"), ("p-2", "active"), ("p-3", "left")] {
        r.upsert_participant(
            SessionTurnParticipant {
                participant_id: id.to_string(),
                player_id: format!("pl-{id}"),
                principal_text: None,
                slot_index: 0,
                status: status.to_string(),
            },
            0,
        );
    }
    r.mark_ready("p-1".to_string(), 0);
    assert!(r.readiness_counts().is_none());
    r.participants_complete = true;
    r.ready_complete = true;
    let counts = r.readiness_counts().unwrap();
    assert_eq!((counts.participant_count, counts.ready_count, counts.all_ready), (2, 1, false));
    r.mark_ready("p-2".to_string(), 0);
    assert!(r.readiness_counts().unwrap().all_ready);
}

#[test]
fn quest_and_rule_snapshots_are_kept_one_per_id() {
    let mut r = runtime("s-1", 2);
    let quest = |state: &str| degens::runtime_types::QuestSnapshot {
        quest_id: "q-1".to_string(),
        participant_id: "p-1".to_string(),
        quest_key: "opening".to_string(),
        state: state.to_string(),
    };
    r.upsert_quest_snapshot(quest("available"), 0);
    r.upsert_quest_snapshot(quest("claimed"), 0);
    assert_eq!(r.quest_snapshots.len(), 1);
    assert_eq!(r.quest_snapshots[0].state, "claimed");
    r.upsert_scenario_rule_snapshot(
        degens::runtime_types::ScenarioRuleSnapshot {
            rule_id: "r-1".to_string(),
            rule_key: "rule:conquest".to_string(),
            state: "active".to_string(),
        },
        0,
    );
    assert_eq!(r.scenario_rule_snapshots.len(), 1);
}
