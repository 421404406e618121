//! The champion summaries a participant is shown and the actions offered
//! on its champions and towns.
use vstd::prelude::*;
use crate::dup::dup_vec;
use crate::text::{push_str, str_eq};

verus! {

/// At most this many of a participant's own champions are listed.
pub const MAX_OWNED_CHAMPIONS_VIEW: usize = 16;

/// What the summary of a champion reads.
pub struct ChampionFacts {
    pub champion_id: String,
    pub session_id: String,
    pub participant_id: String,
    pub name: String,
    pub class_key: String,
    pub status: String,
    pub x: u16,
    pub y: u16,
    pub movement_remaining: u16,
    pub movement_max: u16,
    pub mana: u32,
    pub mana_max: u32,
    pub skill_points: u32,
    pub skill_keys: Vec<String>,
    pub vision_radius: u16,
}

/// The summary of a champion.
pub struct ChampionSummary {
    pub champion_id: String,
    pub owner_participant_id: String,
    pub name: Option<String>,
    pub class_def_id: String,
    pub class_key: String,
    pub status: String,
    pub x: u16,
    pub y: u16,
    pub effective_movement: u16,
    pub movement_max: u16,
    pub mana: u32,
    pub mana_max: u32,
    pub skill_points: u32,
    pub skill_keys: Vec<String>,
    pub vision_radius: u16,
    pub strength_label: String,
    pub redacted: bool,
}

/// `summary` summarises `c` for a viewer that owns it (`own`) or not: the
/// champion's own values, its class as `class:<key>`, its skills only for
/// its owner, its strength left to the detailed view, redacted for others.
pub open spec fn summarises(summary: ChampionSummary, c: ChampionFacts, own: bool) -> bool {
    &&& summary.champion_id@ == c.champion_id@
    &&& summary.owner_participant_id@ == c.participant_id@
    &&& summary.name.deep_view() == Some(c.name@)
    &&& summary.class_def_id@ == "class:"@ + c.class_key@
    &&& summary.class_key@ == c.class_key@
    &&& summary.status@ == c.status@
    &&& summary.x == c.x && summary.y == c.y
    &&& summary.effective_movement == c.movement_remaining
    &&& summary.movement_max == c.movement_max
    &&& summary.mana == c.mana && summary.mana_max == c.mana_max
    &&& summary.skill_points == c.skill_points
    &&& summary.skill_keys@ == if own { c.skill_keys@ } else { Seq::empty() }
    &&& summary.vision_radius == c.vision_radius
    &&& summary.strength_label@ == "details_required"@
    &&& summary.redacted == !own
}

/// The summary of a champion for a viewer that owns it or not.
pub fn champion_summary_view(c: &ChampionFacts, own: bool) -> (summary: ChampionSummary)
    ensures
        summarises(summary, *c, own),
{
    let mut class_def_id = String::new();
    push_str(&mut class_def_id, "class:");
    push_str(&mut class_def_id, c.class_key.as_str());
    proof {
        assert(class_def_id@ =~= "class:"@ + c.class_key@);
    }
    let skill_keys = if own { dup_vec(&c.skill_keys) } else { Vec::new() };
    ChampionSummary {
        champion_id: c.champion_id.clone(),
        owner_participant_id: c.participant_id.clone(),
        name: Some(c.name.clone()),
        class_def_id,
        class_key: c.class_key.clone(),
        status: c.status.clone(),
        x: c.x,
        y: c.y,
        effective_movement: c.movement_remaining,
        movement_max: c.movement_max,
        mana: c.mana,
        mana_max: c.mana_max,
        skill_points: c.skill_points,
        skill_keys,
        vision_radius: c.vision_radius,
        strength_label: "details_required".to_owned(),
        redacted: !own,
    }
}

/// Whether a champion is listed among the viewer's own: of this session and
/// participant, and active.
pub open spec fn listed_as_own(c: ChampionFacts, session_id: Seq<char>, participant_id: Seq<char>) -> bool {
    c.session_id@ == session_id && c.participant_id@ == participant_id && c.status@ == "active"@
}

/// The champions listed among the viewer's own, from the first
/// `MAX_OWNED_CHAMPIONS_VIEW` found by the participant's champion ids
/// (`None` where none was found), in order.
pub open spec fn own_listed(found: Seq<Option<ChampionFacts>>, session_id: Seq<char>, participant_id: Seq<char>) -> Seq<ChampionFacts>
    decreases found.len(),
{
    if found.len() == 0 {
        Seq::empty()
    } else {
        let before = own_listed(found.drop_last(), session_id, participant_id);
        match found.last() {
            Some(c) => if listed_as_own(c, session_id, participant_id) { before.push(c) } else { before },
            None => before,
        }
    }
}

/// The summaries of the viewer's own champions: of the first
/// `MAX_OWNED_CHAMPIONS_VIEW` looked up, those of this session and
/// participant that are active, in order.
pub fn my_champion_views(found: &Vec<Option<ChampionFacts>>, session_id: &str, participant_id: &str) -> (views: Vec<ChampionSummary>)
    ensures
        ({
            let n = if found@.len() < MAX_OWNED_CHAMPIONS_VIEW { found@.len() as int } else { MAX_OWNED_CHAMPIONS_VIEW as int };
            let listed = own_listed(found@.take(n), session_id@, participant_id@);
            &&& views@.len() == listed.len()
            &&& forall|k: int| 0 <= k < listed.len() ==> summarises(#[trigger] views@[k], listed[k], true)
        }),
{
    let n = if found.len() < MAX_OWNED_CHAMPIONS_VIEW { found.len() } else { MAX_OWNED_CHAMPIONS_VIEW };
    let mut views: Vec<ChampionSummary> = Vec::new();
    let mut i: usize = 0;
    while i < n
        invariant
            n <= found@.len(),
            i <= n,
            views@.len() == own_listed(found@.take(i as int), session_id@, participant_id@).len(),
            forall|k: int| 0 <= k < views@.len() ==> summarises(
                #[trigger] views@[k],
                own_listed(found@.take(i as int), session_id@, participant_id@)[k],
                true,
            ),
        decreases n - i,
    {
        proof {
            assert(found@.take(i + 1).drop_last() =~= found@.take(i as int));
            assert(found@.take(i + 1).last() == found@[i as int]);
        }
        match &found[i] {
            Some(c) => {
                if str_eq(c.session_id.as_str(), session_id) && str_eq(c.participant_id.as_str(), participant_id)
                    && str_eq(c.status.as_str(), "active") {
                    let v = champion_summary_view(c, true);
                    views.push(v);
                }
            },
            None => {},
        }
        i = i + 1;
    }
    views
}

/// An action offered to the viewer.
pub struct ActionAffordance {
    pub action: &'static str,
    pub enabled: bool,
    pub target_id: Option<String>,
    pub disabled_reason: Option<String>,
}

/// A champion or town an action is offered on: its id and status.
pub struct ActionTarget {
    pub id: String,
    pub status: String,
}

/// `a` offers `action` on `t`: enabled while `t` is active, else disabled
/// for its status.
pub open spec fn offers(a: ActionAffordance, action: Seq<char>, t: ActionTarget) -> bool {
    &&& a.action@ == action
    &&& a.enabled == (t.status@ == "active"@)
    &&& a.target_id.deep_view() == Some(t.id@)
    &&& a.disabled_reason.deep_view() == if t.status@ == "active"@ { None } else { Some(t.status@) }
}

fn affordance(action: &'static str, t: &ActionTarget) -> (a: ActionAffordance)
    ensures
        offers(a, action@, *t),
{
    let active = str_eq(t.status.as_str(), "active");
    ActionAffordance {
        action,
        enabled: active,
        target_id: Some(t.id.clone()),
        disabled_reason: if active { None } else { Some(t.status.clone()) },
    }
}

/// The actions offered: moving each champion, in order, then building in
/// and recruiting from each town, in order.
pub fn action_affordances(champions: &Vec<ActionTarget>, towns: &Vec<ActionTarget>) -> (actions: Vec<ActionAffordance>)
    requires
        champions@.len() + 2 * towns@.len() <= usize::MAX,
    ensures
        actions@.len() == champions@.len() + 2 * towns@.len(),
        forall|i: int| 0 <= i < champions@.len() ==> offers(#[trigger] actions@[i], "submit_move_intent"@, champions@[i]),
        forall|j: int| 0 <= j < towns@.len() ==> offers(
            #[trigger] actions@[champions@.len() + 2 * j],
            "submit_build_town_structure"@,
            towns@[j],
        ),
        forall|j: int| 0 <= j < towns@.len() ==> offers(
            #[trigger] actions@[champions@.len() + 2 * j + 1],
            "submit_recruit_units"@,
            towns@[j],
        ),
{
    let mut actions: Vec<ActionAffordance> = Vec::new();
    let mut i: usize = 0;
    while i < champions.len()
        invariant
            i <= champions@.len(),
            actions@.len() == i,
            forall|k: int| 0 <= k < i ==> offers(#[trigger] actions@[k], "submit_move_intent"@, champions@[k]),
        decreases champions@.len() - i,
    {
        let a = affordance("submit_move_intent", &champions[i]);
        actions.push(a);
        i = i + 1;
    }
    let c = champions.len();
    let mut j: usize = 0;
    while j < towns.len()
        invariant
            c == champions@.len(),
            c + 2 * towns@.len() <= usize::MAX,
            j <= towns@.len(),
            actions@.len() == c + 2 * j,
            forall|k: int| 0 <= k < c ==> offers(#[trigger] actions@[k], "submit_move_intent"@, champions@[k]),
            forall|k: int| 0 <= k < j ==> offers(#[trigger] actions@[c + 2 * k], "submit_build_town_structure"@, towns@[k]),
            forall|k: int| 0 <= k < j ==> offers(#[trigger] actions@[c + 2 * k + 1], "submit_recruit_units"@, towns@[k]),
        decreases towns@.len() - j,
    {
        let build = affordance("submit_build_town_structure", &towns[j]);
        actions.push(build);
        let recruit = affordance("submit_recruit_units", &towns[j]);
        actions.push(recruit);
        proof {
            assert forall|k: int| 0 <= k < j + 1 implies offers(#[trigger] actions@[c + 2 * k], "submit_build_town_structure"@, towns@[k]) by {
                if k == j {
                    assert(c + 2 * k == c + 2 * j);
                }
            }
            assert forall|k: int| 0 <= k < j + 1 implies offers(#[trigger] actions@[c + 2 * k + 1], "submit_recruit_units"@, towns@[k]) by {
                if k == j {
                    assert(c + 2 * k + 1 == c + 2 * j + 1);
                }
            }
        }
        j = j + 1;
    }
    actions
}

} // verus!
