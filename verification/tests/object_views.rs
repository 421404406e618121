use degens::object_view::{
    last_known_object_view, object_view_from_known, world_object_list_view, LiveChampion,
    LiveFacts, LiveNeutral, LiveTown, LiveWorldObject, ObjectSubject, Viewer, Viewport,
};
use degens::scenario_content::{
    MapObjectDefinition, ScenarioContent, ScenarioNeutral, ScenarioObject, ScenarioStart,
};

fn content() -> ScenarioContent {
    ScenarioContent {
        starts: vec![
            ScenarioStart {
                slot_index: 0,
                town_key: "town:north".to_string(),
                town_name: "Northhold".to_string(),
                town_x: 2,
                town_y: 3,
                faction_slug: "vanguard".to_string(),
                champion_key: "champion:north".to_string(),
                champion_name: "Aria".to_string(),
                champion_class_slug: "knight".to_string(),
            },
            ScenarioStart {
                slot_index: 1,
                town_key: "town:south".to_string(),
                town_name: "Southwatch".to_string(),
                town_x: 20,
                town_y: 30,
                faction_slug: "wildkin".to_string(),
                champion_key: "champion:south".to_string(),
                champion_name: "Bren".to_string(),
                champion_class_slug: "ranger".to_string(),
            },
        ],
        neutral_armies: vec![ScenarioNeutral {
            key: "neutral:ford".to_string(),
            strength_band: "modest".to_string(),
        }],
        objects: vec![ScenarioObject {
            key: "mine:gold".to_string(),
            object_slug: "gold-mine".to_string(),
        }],
        resource_piles: vec![ScenarioObject {
            key: "pile:wood".to_string(),
            object_slug: "wood-pile".to_string(),
        }],
        map_objects: vec![MapObjectDefinition {
            slug: "gold-mine".to_string(),
            name: "Gold Mine".to_string(),
            sprite_key: Some("sprite:object:gold-mine".to_string()),
        }],
    }
}

fn subject(kind: &str, id: &str, x: u16, y: u16) -> ObjectSubject {
    ObjectSubject {
        subject_kind: kind.to_string(),
        subject_id_text: id.to_string(),
        x,
        y,
        last_seen_turn: 2,
        redacted_json: Some("{\"type\":\"redacted\"}".to_string()),
    }
}

fn viewer() -> Viewer {
    Viewer { participant_id: "participant-1".to_string(), slot_index: 0, current_turn: 5 }
}

fn no_live() -> LiveFacts {
    LiveFacts { world_object: None, neutral: None, champion: None, town: None }
}

#[test]
fn scenario_details_name_starts_guards_and_objects() {
    let c = content();
    let town = c.scenario_subject_details("town", "town:south");
    assert_eq!(town.display_name, "Southwatch");
    assert_eq!(town.asset_key.as_deref(), Some("sprite:town:wildkin"));
    let champion = c.scenario_subject_details("champion", "champion:north");
    assert_eq!(champion.display_name, "Aria");
    assert_eq!(champion.asset_key.as_deref(), Some("sprite:champion:knight"));
    let guard = c.scenario_subject_details("neutral_army", "neutral:ford");
    assert_eq!(guard.display_name, "Neutral Guard (modest)");
    assert_eq!(guard.asset_key.as_deref(), Some("sprite:unit:broken-pike"));
    let mine = c.scenario_subject_details("world_object", "mine:gold");
    assert_eq!(mine.display_name, "Gold Mine");
    assert_eq!(mine.asset_key.as_deref(), Some("sprite:object:gold-mine"));
    let pile = c.scenario_subject_details("world_object", "pile:wood");
    assert_eq!(pile.display_name, "wood-pile");
    assert_eq!(pile.asset_key, None);
    let other = c.scenario_subject_details("world_object", "nothing");
    assert_eq!(other.display_name, "nothing");
    // A town key asked for as a champion is not a champion start.
    assert_eq!(c.scenario_subject_details("champion", "town:north").display_name, "town:north");
}

#[test]
fn scenario_starts_answer_ownership_and_faction() {
    let c = content();
    assert!(c.champion_start_of_slot("champion:north", 0));
    assert!(!c.champion_start_of_slot("champion:north", 1));
    assert!(c.town_start_of_slot("town:south", 1));
    assert_eq!(c.town_faction_slug(20, 30), "wildkin");
    assert_eq!(c.town_faction_slug(1, 1), "unknown");
}

#[test]
fn viewport_contains_saturates_at_the_far_edge() {
    let v = Viewport { x: 10, y: 10, width: 5, height: 5 };
    assert!(v.contains(10, 14));
    assert!(!v.contains(15, 10));
    assert!(!v.contains(9, 10));
    let edge = Viewport { x: u16::MAX - 1, y: 0, width: 10, height: 1 };
    assert!(edge.contains(u16::MAX - 1, 0));
    assert!(!edge.contains(u16::MAX, 0));
}

#[test]
fn last_known_view_keeps_the_redacted_details() {
    let s = subject("town", "town:far", 40, 40);
    let view = last_known_object_view(&s, None).unwrap();
    assert_eq!(view.visibility, "last_known");
    assert_eq!(view.redaction_level, "last_known");
    assert_eq!(view.last_seen_turn, Some(2));
    assert_eq!(view.details_json, "{\"type\":\"redacted\"}");
    let v = Viewport { x: 0, y: 0, width: 10, height: 10 };
    assert!(last_known_object_view(&s, Some(v)).is_none());
}

#[test]
fn listed_world_object_without_live_row_is_dropped_only_when_listed() {
    let s = subject("world_object", "mine:gold", 4, 4);
    assert!(world_object_list_view(&s, &None, true, None, 5).is_none());
    let view = world_object_list_view(&s, &None, false, None, 5).unwrap();
    assert_eq!(
        view.details_json,
        "{\"type\":\"world_object\",\"scenario_key\":\"mine:gold\",\"object_slug\":\"mine:gold\",\"state\":\"available\",\"scoring_kind\":\"mine\"}"
    );
    assert_eq!(view.display_name.as_deref(), Some("mine:gold"));
    let live = Some(LiveWorldObject {
        object_id: "obj-1".to_string(),
        x: 4,
        y: 5,
        state: "owned".to_string(),
        scoring_kind: "mine".to_string(),
        instance_json: Some("{\"object_slug\":\"gold-mine\"}".to_string()),
        owner_participant_id: Some("participant-2".to_string()),
    });
    let view = world_object_list_view(&s, &live, true, None, 5).unwrap();
    assert_eq!((view.x, view.y), (4, 5));
    assert_eq!(view.owner_participant_id.as_deref(), Some("participant-2"));
    assert_eq!(
        view.details_json,
        "{\"type\":\"world_object\",\"scenario_key\":\"mine:gold\",\"object_id\":\"obj-1\",\"object_slug\":\"gold-mine\",\"state\":\"owned\",\"scoring_kind\":\"mine\"}"
    );
    assert!(world_object_list_view(&s, &live, true, Some(false), 5).is_none());
}

#[test]
fn world_object_by_subject_is_named_by_its_slug_and_hidden_once_collected() {
    let s = subject("world_object", "pile:wood", 1, 1);
    let mut live = no_live();
    live.world_object = Some(LiveWorldObject {
        object_id: "obj-2".to_string(),
        x: 1,
        y: 1,
        state: "available".to_string(),
        scoring_kind: "resource".to_string(),
        instance_json: Some("{\"object_slug\":\"wood-pile\"}".to_string()),
        owner_participant_id: None,
    });
    let view = object_view_from_known(&s, None, &live, false, None, &content(), &viewer()).unwrap();
    assert_eq!(view.display_name.as_deref(), Some("wood-pile"));
    assert_eq!(view.visibility, "visible");
    assert_eq!(view.last_seen_turn, Some(5));
    live.world_object.as_mut().unwrap().state = "collected".to_string();
    assert!(object_view_from_known(&s, None, &live, false, None, &content(), &viewer()).is_none());
    assert!(object_view_from_known(&s, None, &no_live(), false, None, &content(), &viewer()).is_none());
}

#[test]
fn neutral_army_views_in_and_out_of_a_viewport() {
    let s = subject("neutral_army", "neutral:ford", 7, 7);
    let mut live = no_live();
    live.neutral = Some(LiveNeutral {
        neutral_army_id: "n-1".to_string(),
        x: 7,
        y: 8,
        state: "guarding".to_string(),
    });
    let v = Viewport { x: 0, y: 0, width: 10, height: 10 };
    let in_view = object_view_from_known(&s, Some(v), &live, true, None, &content(), &viewer()).unwrap();
    assert_eq!(in_view.display_name.as_deref(), Some("Neutral Guard (modest)"));
    assert_eq!(in_view.asset_key.as_deref(), Some("sprite:unit:broken-pike"));
    assert_eq!(
        in_view.details_json,
        "{\"type\":\"neutral_army\",\"scenario_key\":\"neutral:ford\",\"neutral_army_id\":\"n-1\",\"state\":\"guarding\"}"
    );
    let direct = object_view_from_known(&s, None, &live, false, None, &content(), &viewer()).unwrap();
    assert_eq!(direct.display_name.as_deref(), Some("Neutral Army"));
    assert_eq!(direct.asset_key, None);
    let hidden = object_view_from_known(&s, None, &live, false, Some(false), &content(), &viewer()).unwrap();
    assert_eq!(hidden.visibility, "last_known");
    live.neutral.as_mut().unwrap().state = "defeated".to_string();
    assert!(object_view_from_known(&s, None, &live, false, None, &content(), &viewer()).is_none());
}

#[test]
fn champion_views_follow_the_live_champion_or_the_scenario_start() {
    let s = subject("champion", "champion:north", 2, 3);
    let v = Viewport { x: 0, y: 0, width: 10, height: 10 };
    let from_start = object_view_from_known(&s, Some(v), &no_live(), true, None, &content(), &viewer()).unwrap();
    assert_eq!(from_start.display_name.as_deref(), Some("Aria"));
    assert_eq!(from_start.owner_participant_id.as_deref(), Some("participant-1"));
    assert_eq!(
        from_start.details_json,
        "{\"type\":\"champion\",\"scenario_key\":\"champion:north\",\"status\":\"active\"}"
    );
    let last_known = object_view_from_known(&s, None, &no_live(), false, None, &content(), &viewer()).unwrap();
    assert_eq!(last_known.visibility, "last_known");
    let mut live = no_live();
    live.champion = Some(LiveChampion {
        champion_id: "c-1".to_string(),
        x: 3,
        y: 3,
        name: "Aria".to_string(),
        class_key: "knight".to_string(),
        status: "in_battle".to_string(),
        participant_id: "participant-1".to_string(),
    });
    let seen = object_view_from_known(&s, None, &live, false, None, &content(), &viewer()).unwrap();
    assert_eq!(
        seen.details_json,
        "{\"type\":\"champion\",\"scenario_key\":\"champion:north\",\"champion_id\":\"c-1\",\"class_key\":\"knight\",\"status\":\"in_battle\"}"
    );
    live.champion.as_mut().unwrap().status = "defeated".to_string();
    assert!(object_view_from_known(&s, None, &live, false, None, &content(), &viewer()).is_none());
}

#[test]
fn town_views_own_start_live_town_and_last_known() {
    let v = Viewport { x: 0, y: 0, width: 40, height: 40 };
    let own = subject("town", "town:north", 2, 3);
    let view = object_view_from_known(&own, Some(v), &no_live(), true, None, &content(), &viewer()).unwrap();
    assert_eq!(view.display_name.as_deref(), Some("Northhold"));
    assert_eq!(view.asset_key.as_deref(), Some("sprite:town:vanguard"));
    assert_eq!(view.owner_participant_id.as_deref(), Some("participant-1"));
    let other = subject("town", "town:south", 20, 30);
    let mut live = no_live();
    live.town = Some(LiveTown {
        town_id: "t-2".to_string(),
        x: 20,
        y: 30,
        name: "Southwatch".to_string(),
        status: "active".to_string(),
        owner_participant_id: Some("participant-2".to_string()),
    });
    let seen = object_view_from_known(&other, Some(v), &live, true, None, &content(), &viewer()).unwrap();
    assert_eq!(seen.asset_key.as_deref(), Some("sprite:town:wildkin"));
    assert_eq!(
        seen.details_json,
        "{\"type\":\"town\",\"scenario_key\":\"town:south\",\"town_id\":\"t-2\",\"status\":\"active\"}"
    );
    let direct = object_view_from_known(&other, None, &live, false, None, &content(), &viewer()).unwrap();
    assert_eq!(direct.asset_key, None);
    let unknown = object_view_from_known(&other, Some(v), &no_live(), true, None, &content(), &viewer()).unwrap();
    assert_eq!(unknown.visibility, "last_known");
}
