//! What a champion's stop on a world object does to the object: a resource
//! pile is collected, a mine captured, anything else visited; a guarded,
//! collected or own captured object only ends the move.
use vstd::prelude::*;
use crate::json::{json_string_field_in, json_string_field_spec};
use crate::text::str_eq;

verus! {

/// The state of a world object that a visit reads and changes.
pub struct WorldObjectState {
    pub state: String,
    pub scoring_kind: String,
    pub owner_participant_id: Option<String>,
    pub guarded: bool,
    pub captured_turn: u32,
    pub income_started_turn: u32,
    pub last_visited_turn: u32,
    pub last_command_id: Option<String>,
    pub instance_json: Option<String>,
}

/// What the visit did.
#[derive(Clone, Copy, Debug, PartialEq, Eq, Structural)]
pub enum ObjectVisit {
    /// The object is guarded, already collected, or a mine the participant
    /// already holds: the move ends, nothing changes.
    Blocked,
    /// A resource pile was collected.
    PickedUp,
    /// A mine was captured.
    MineCaptured,
    /// Any other object was visited.
    Visited,
}

/// Whether the object only ends the move.
pub open spec fn visit_blocked(o: WorldObjectState, participant_id: Seq<char>) -> bool {
    ||| o.guarded
    ||| o.state@ == "collected"@
    ||| (o.scoring_kind@ == "mine"@ && o.owner_participant_id.deep_view() == Some(participant_id) && o.state@ == "captured"@)
}

/// What visiting the object does.
pub open spec fn visit_kind(o: WorldObjectState, participant_id: Seq<char>) -> ObjectVisit {
    if visit_blocked(o, participant_id) {
        ObjectVisit::Blocked
    } else if o.scoring_kind@ == "resource_pile"@ {
        ObjectVisit::PickedUp
    } else if o.scoring_kind@ == "mine"@ {
        ObjectVisit::MineCaptured
    } else {
        ObjectVisit::Visited
    }
}

/// A champion of participant `participant_id` stops on the object in turn
/// `current_turn` under command `command_id`. Unless blocked, the object is
/// marked visited in this turn by this command; a pile becomes collected; a
/// mine becomes captured by the participant in this turn and yields from
/// the next one (saturating).
pub fn visit_world_object(o: &mut WorldObjectState, participant_id: &str, command_id: &str, current_turn: u32) -> (visit: ObjectVisit)
    ensures
        visit == visit_kind(*old(o), participant_id@),
        (old(o).guarded || old(o).state@ == "collected"@) ==> visit == ObjectVisit::Blocked,
        (old(o).scoring_kind@ == "mine"@ && !old(o).guarded && old(o).state@ != "collected"@
            && old(o).owner_participant_id.deep_view() != Some(participant_id@)) ==> visit == ObjectVisit::MineCaptured,
        (old(o).scoring_kind@ == "mine"@ && !old(o).guarded && old(o).state@ != "captured"@
            && old(o).state@ != "collected"@) ==> visit == ObjectVisit::MineCaptured,
        (old(o).scoring_kind@ == "mine"@ && old(o).owner_participant_id.deep_view() == Some(participant_id@)
            && old(o).state@ == "captured"@) ==> visit == ObjectVisit::Blocked,
        (old(o).scoring_kind@ == "resource_pile"@ && !old(o).guarded && old(o).state@ != "collected"@) ==> visit
            == ObjectVisit::PickedUp,
        visit == ObjectVisit::Blocked ==> *final(o) == *old(o),
        visit != ObjectVisit::Blocked ==> {
            &&& final(o).last_visited_turn == current_turn
            &&& final(o).last_command_id.deep_view() == Some(command_id@)
            &&& final(o).scoring_kind == old(o).scoring_kind
            &&& final(o).guarded == old(o).guarded
            &&& final(o).instance_json == old(o).instance_json
        },
        visit == ObjectVisit::PickedUp ==> {
            &&& final(o).state@ == "collected"@
            &&& final(o).owner_participant_id == old(o).owner_participant_id
            &&& final(o).captured_turn == old(o).captured_turn
            &&& final(o).income_started_turn == old(o).income_started_turn
        },
        visit == ObjectVisit::MineCaptured ==> {
            &&& final(o).state@ == "captured"@
            &&& final(o).owner_participant_id.deep_view() == Some(participant_id@)
            &&& final(o).captured_turn == current_turn
            &&& final(o).income_started_turn == if current_turn == u32::MAX { u32::MAX } else { (current_turn + 1) as u32 }
        },
        visit == ObjectVisit::Visited ==> {
            &&& final(o).state == old(o).state
            &&& final(o).owner_participant_id == old(o).owner_participant_id
            &&& final(o).captured_turn == old(o).captured_turn
            &&& final(o).income_started_turn == old(o).income_started_turn
        },
{
    let own = match &o.owner_participant_id {
        Some(owner) => str_eq(owner.as_str(), participant_id),
        None => false,
    };
    let is_mine = str_eq(o.scoring_kind.as_str(), "mine");
    proof {
        lemma_mine_is_no_pile();
    }
    if o.guarded || str_eq(o.state.as_str(), "collected") || (is_mine && own && str_eq(o.state.as_str(), "captured")) {
        return ObjectVisit::Blocked;
    }
    o.last_visited_turn = current_turn;
    o.last_command_id = Some(owned_text(command_id));
    if str_eq(o.scoring_kind.as_str(), "resource_pile") {
        o.state = "collected".to_owned();
        ObjectVisit::PickedUp
    } else if is_mine {
        o.owner_participant_id = Some(owned_text(participant_id));
        o.state = "captured".to_owned();
        o.captured_turn = current_turn;
        o.income_started_turn = current_turn.saturating_add(1);
        ObjectVisit::MineCaptured
    } else {
        ObjectVisit::Visited
    }
}

fn owned_text(s: &str) -> (copy: String)
    ensures
        copy@ == s@,
{
    s.to_owned()
}

/// The type of the event a visit raises; a blocked stop raises none.
pub open spec fn visit_event_spec(visit: ObjectVisit) -> Option<Seq<char>> {
    match visit {
        ObjectVisit::Blocked => None,
        ObjectVisit::PickedUp => Some("resource_picked_up"@),
        ObjectVisit::MineCaptured => Some("mine_captured"@),
        ObjectVisit::Visited => Some("world_object_visited"@),
    }
}

/// The type of the event a visit raises.
pub fn visit_event_type(visit: ObjectVisit) -> (event_type: Option<&'static str>)
    ensures
        match event_type {
            Some(t) => visit_event_spec(visit) == Some(t@),
            None => visit_event_spec(visit) is None,
        },
{
    match visit {
        ObjectVisit::Blocked => None,
        ObjectVisit::PickedUp => Some("resource_picked_up"),
        ObjectVisit::MineCaptured => Some("mine_captured"),
        ObjectVisit::Visited => Some("world_object_visited"),
    }
}

/// The scenario key of an object that a visit makes known to the
/// participant: that of its instance JSON, for a visit that did not
/// collect it.
pub open spec fn revealed_key_spec(visit: ObjectVisit, instance_json: Option<Seq<char>>) -> Option<Seq<char>> {
    match visit {
        ObjectVisit::Blocked => None,
        ObjectVisit::PickedUp => None,
        _ => match instance_json {
            Some(j) => json_string_field_spec(j, "scenario_key"@),
            None => None,
        },
    }
}

/// The scenario key of the object that a visit makes known, if any.
pub fn revealed_scenario_key(visit: ObjectVisit, instance_json: Option<&str>) -> (key: Option<String>)
    ensures
        key.deep_view() == revealed_key_spec(visit, match instance_json {
            Some(j) => Some(j@),
            None => None,
        }),
{
    match visit {
        ObjectVisit::Blocked => None,
        ObjectVisit::PickedUp => None,
        _ => {
            let k = json_string_field_in(instance_json, "scenario_key");
            proof {
                match instance_json {
                    Some(j) => match json_string_field_spec(j@, "scenario_key"@) {
                        Some(v) => assert(k.deep_view() == Some(v)),
                        None => assert(k is None),
                    },
                    None => {},
                }
            }
            k
        },
    }
}

/// Law: what a champion's stop does, by the object alone. A guarded or
/// collected object only ends the move. An unguarded mine that is not
/// collected is captured by the visitor unless the visitor already holds
/// it captured: a mine held by another participant, or not captured, is
/// taken over, becoming the visitor's, captured in this turn. An unguarded
/// pile that is not collected is picked up.
pub proof fn lemma_visit_outcomes(o: WorldObjectState, participant_id: Seq<char>)
    ensures
        o.guarded || o.state@ == "collected"@ ==> visit_kind(o, participant_id) == ObjectVisit::Blocked,
        o.scoring_kind@ == "mine"@ && !o.guarded && o.state@ != "collected"@
            && o.owner_participant_id.deep_view() != Some(participant_id) ==> visit_kind(o, participant_id)
            == ObjectVisit::MineCaptured,
        o.scoring_kind@ == "mine"@ && !o.guarded && o.state@ != "collected"@ && o.state@ != "captured"@
            ==> visit_kind(o, participant_id) == ObjectVisit::MineCaptured,
        o.scoring_kind@ == "mine"@ && o.owner_participant_id.deep_view() == Some(participant_id)
            && o.state@ == "captured"@ ==> visit_kind(o, participant_id) == ObjectVisit::Blocked,
        o.scoring_kind@ == "resource_pile"@ && !o.guarded && o.state@ != "collected"@ ==> visit_kind(
            o,
            participant_id,
        ) == ObjectVisit::PickedUp,
{
    lemma_mine_is_no_pile();
}

proof fn lemma_mine_is_no_pile()
    ensures
        "mine"@ != "resource_pile"@,
{
    reveal_strlit("mine");
    reveal_strlit("resource_pile");
    assert("mine"@.len() == 4);
    assert("resource_pile"@.len() == 13);
}

} // verus!
