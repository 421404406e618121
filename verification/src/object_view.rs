//! The view a participant gets of an object it knows of: the live object
//! where it can still be found, else what was last seen of it.
use vstd::prelude::*;
use crate::json::json_string_field_spec;
use crate::json::json_string_field_in;
use crate::movement_rules::sat_add_u16;
use crate::render_rules::{
    neutral_army_details_json, neutral_army_details_spec, world_object_details_spec,
    world_object_live_details_json,
};
use crate::scenario_content::{subject_details_spec, ScenarioContent};
use crate::text::{chars_of, escape_seq, push_escaped, push_str, str_eq};

verus! {

/// A rectangle of map cells.
#[derive(Clone, Copy)]
pub struct Viewport {
    pub x: u16,
    pub y: u16,
    pub width: u16,
    pub height: u16,
}

/// Whether `(x, y)` lies in the viewport (its far edges saturating).
pub open spec fn in_viewport(v: Viewport, x: u16, y: u16) -> bool {
    &&& v.x <= x && x < sat_add_u16(v.x, v.width)
    &&& v.y <= y && y < sat_add_u16(v.y, v.height)
}

impl Viewport {
    /// Whether `(x, y)` lies in the viewport.
    pub fn contains(&self, x: u16, y: u16) -> (inside: bool)
        ensures
            inside == in_viewport(*self, x, y),
    {
        x >= self.x && x < self.x.saturating_add(self.width) && y >= self.y && y < self.y.saturating_add(self.height)
    }
}

/// Whether a viewport is given and `(x, y)` lies outside it.
pub open spec fn outside(viewport: Option<Viewport>, x: u16, y: u16) -> bool {
    match viewport {
        Some(v) => !in_viewport(v, x, y),
        None => false,
    }
}

fn is_outside(viewport: Option<Viewport>, x: u16, y: u16) -> (out: bool)
    ensures
        out == outside(viewport, x, y),
{
    match viewport {
        Some(v) => !v.contains(x, y),
        None => false,
    }
}

/// What a participant knows of an object.
pub struct ObjectSubject {
    pub subject_kind: String,
    pub subject_id_text: String,
    pub x: u16,
    pub y: u16,
    pub last_seen_turn: u32,
    pub redacted_json: Option<String>,
}

/// The view of an object handed to a participant.
pub struct ObjectView {
    pub subject_kind: String,
    pub subject_id_text: String,
    pub visibility: String,
    pub redaction_level: String,
    pub x: u16,
    pub y: u16,
    pub last_seen_turn: Option<u32>,
    pub display_name: Option<String>,
    pub asset_key: Option<String>,
    pub owner_participant_id: Option<String>,
    pub details_json: String,
}

/// An object view with its texts as character sequences.
pub struct ObjectViewModel {
    pub subject_kind: Seq<char>,
    pub subject_id_text: Seq<char>,
    pub visibility: Seq<char>,
    pub redaction_level: Seq<char>,
    pub x: u16,
    pub y: u16,
    pub last_seen_turn: Option<u32>,
    pub display_name: Option<Seq<char>>,
    pub asset_key: Option<Seq<char>>,
    pub owner_participant_id: Option<Seq<char>>,
    pub details_json: Seq<char>,
}

impl View for ObjectView {
    type V = ObjectViewModel;

    open spec fn view(&self) -> ObjectViewModel {
        ObjectViewModel {
            subject_kind: self.subject_kind@,
            subject_id_text: self.subject_id_text@,
            visibility: self.visibility@,
            redaction_level: self.redaction_level@,
            x: self.x,
            y: self.y,
            last_seen_turn: self.last_seen_turn,
            display_name: self.display_name.deep_view(),
            asset_key: self.asset_key.deep_view(),
            owner_participant_id: self.owner_participant_id.deep_view(),
            details_json: self.details_json@,
        }
    }
}

/// The models of an optional view.
pub open spec fn view_opt(v: Option<ObjectView>) -> Option<ObjectViewModel> {
    match v {
        Some(v) => Some(v@),
        None => None,
    }
}

/// The live state of a world object.
pub struct LiveWorldObject {
    pub object_id: String,
    pub x: u16,
    pub y: u16,
    pub state: String,
    pub scoring_kind: String,
    pub instance_json: Option<String>,
    pub owner_participant_id: Option<String>,
}

/// The live state of a neutral army.
pub struct LiveNeutral {
    pub neutral_army_id: String,
    pub x: u16,
    pub y: u16,
    pub state: String,
}

/// The live state of a champion.
pub struct LiveChampion {
    pub champion_id: String,
    pub x: u16,
    pub y: u16,
    pub name: String,
    pub class_key: String,
    pub status: String,
    pub participant_id: String,
}

/// The live state of a town.
pub struct LiveTown {
    pub town_id: String,
    pub x: u16,
    pub y: u16,
    pub name: String,
    pub status: String,
    pub owner_participant_id: Option<String>,
}

/// What could be found live of a subject: the entry of its kind, where it
/// was found.
pub struct LiveFacts {
    pub world_object: Option<LiveWorldObject>,
    pub neutral: Option<LiveNeutral>,
    pub champion: Option<LiveChampion>,
    pub town: Option<LiveTown>,
}

/// Who looks, and when.
pub struct Viewer {
    pub participant_id: String,
    pub slot_index: u8,
    pub current_turn: u32,
}

/// A view of a live object, seen in the current turn.
pub open spec fn live_model(
    subject: ObjectSubject,
    x: u16,
    y: u16,
    turn: u32,
    display_name: Option<Seq<char>>,
    asset_key: Option<Seq<char>>,
    owner: Option<Seq<char>>,
    details: Seq<char>,
) -> ObjectViewModel {
    ObjectViewModel {
        subject_kind: subject.subject_kind@,
        subject_id_text: subject.subject_id_text@,
        visibility: "visible"@,
        redaction_level: "none"@,
        x,
        y,
        last_seen_turn: Some(turn),
        display_name,
        asset_key,
        owner_participant_id: owner,
        details_json: details,
    }
}

/// The last-known view of a subject: where and when it was last seen, with
/// its redacted details; none when it lies outside a given viewport.
pub open spec fn last_known_spec(subject: ObjectSubject, viewport: Option<Viewport>) -> Option<ObjectViewModel> {
    if outside(viewport, subject.x, subject.y) {
        None
    } else {
        Some(ObjectViewModel {
            subject_kind: subject.subject_kind@,
            subject_id_text: subject.subject_id_text@,
            visibility: "last_known"@,
            redaction_level: "last_known"@,
            x: subject.x,
            y: subject.y,
            last_seen_turn: Some(subject.last_seen_turn),
            display_name: None,
            asset_key: None,
            owner_participant_id: None,
            details_json: match subject.redacted_json {
                Some(j) => j@,
                None => "{}"@,
            },
        })
    }
}

fn copy_text(s: &Option<String>) -> (copy: Option<String>)
    ensures
        copy == *s,
{
    match s {
        Some(t) => Some(t.clone()),
        None => None,
    }
}

fn live_view(
    subject: &ObjectSubject,
    x: u16,
    y: u16,
    turn: u32,
    display_name: Option<String>,
    asset_key: Option<String>,
    owner: Option<String>,
    details: String,
) -> (v: ObjectView)
    ensures
        v@ == live_model(*subject, x, y, turn, display_name.deep_view(), asset_key.deep_view(), owner.deep_view(), details@),
{
    ObjectView {
        subject_kind: subject.subject_kind.clone(),
        subject_id_text: subject.subject_id_text.clone(),
        visibility: "visible".to_owned(),
        redaction_level: "none".to_owned(),
        x,
        y,
        last_seen_turn: Some(turn),
        display_name,
        asset_key,
        owner_participant_id: owner,
        details_json: details,
    }
}

/// The last-known view of a subject.
pub fn last_known_object_view(subject: &ObjectSubject, viewport: Option<Viewport>) -> (v: Option<ObjectView>)
    ensures
        view_opt(v) == last_known_spec(*subject, viewport),
{
    if is_outside(viewport, subject.x, subject.y) {
        return None;
    }
    let details = match &subject.redacted_json {
        Some(j) => j.clone(),
        None => "{}".to_owned(),
    };
    Some(ObjectView {
        subject_kind: subject.subject_kind.clone(),
        subject_id_text: subject.subject_id_text.clone(),
        visibility: "last_known".to_owned(),
        redaction_level: "last_known".to_owned(),
        x: subject.x,
        y: subject.y,
        last_seen_turn: Some(subject.last_seen_turn),
        display_name: None,
        asset_key: None,
        owner_participant_id: None,
        details_json: details,
    })
}

/// Whether `s` begins with `p`.
pub open spec fn has_prefix(s: Seq<char>, p: Seq<char>) -> bool {
    p.len() <= s.len() && s.subrange(0, p.len() as int) == p
}

fn starts_with(s: &str, p: &str) -> (yes: bool)
    ensures
        yes == has_prefix(s@, p@),
{
    let cs = chars_of(s);
    let cp = chars_of(p);
    if cp.len() > cs.len() {
        return false;
    }
    let mut i: usize = 0;
    while i < cp.len()
        invariant
            cp@ == p@,
            cs@ == s@,
            cp@.len() <= cs@.len(),
            i <= cp@.len(),
            forall|j: int| 0 <= j < i ==> cs@[j] == cp@[j],
        decreases cp@.len() - i,
    {
        if cs[i] != cp[i] {
            proof {
                assert(s@.subrange(0, p@.len() as int)[i as int] != p@[i as int]);
            }
            return false;
        }
        i = i + 1;
    }
    proof {
        assert(s@.subrange(0, p@.len() as int) =~= p@);
    }
    true
}

/// The details of a world object known only by its scenario key.
pub open spec fn world_object_plain_details_spec(id: Seq<char>, state: Seq<char>, scoring_kind: Seq<char>) -> Seq<char> {
    "{\"type\":\"world_object\",\"scenario_key\":\""@ + escape_seq(id) + "\",\"object_slug\":\""@ + escape_seq(id)
        + "\",\"state\":\""@ + escape_seq(state) + "\",\"scoring_kind\":\""@ + escape_seq(scoring_kind) + "\"}"@
}

fn world_object_plain_details_json(id: &str, state: &str, scoring_kind: &str) -> (json: String)
    ensures
        json@ == world_object_plain_details_spec(id@, state@, scoring_kind@),
{
    let mut out = String::new();
    push_str(&mut out, "{\"type\":\"world_object\",\"scenario_key\":\"");
    push_escaped(&mut out, id);
    push_str(&mut out, "\",\"object_slug\":\"");
    push_escaped(&mut out, id);
    push_str(&mut out, "\",\"state\":\"");
    push_escaped(&mut out, state);
    push_str(&mut out, "\",\"scoring_kind\":\"");
    push_escaped(&mut out, scoring_kind);
    push_str(&mut out, "\"}");
    proof {
        assert(out@ =~= world_object_plain_details_spec(id@, state@, scoring_kind@));
    }
    out
}

/// The details of a live champion.
pub open spec fn champion_details_spec(id: Seq<char>, champion_id: Seq<char>, class_key: Seq<char>, status: Seq<char>) -> Seq<char> {
    "{\"type\":\"champion\",\"scenario_key\":\""@ + escape_seq(id) + "\",\"champion_id\":\""@ + champion_id
        + "\",\"class_key\":\""@ + escape_seq(class_key) + "\",\"status\":\""@ + escape_seq(status) + "\"}"@
}

fn champion_details_json(id: &str, champion_id: &str, class_key: &str, status: &str) -> (json: String)
    ensures
        json@ == champion_details_spec(id@, champion_id@, class_key@, status@),
{
    let mut out = String::new();
    push_str(&mut out, "{\"type\":\"champion\",\"scenario_key\":\"");
    push_escaped(&mut out, id);
    push_str(&mut out, "\",\"champion_id\":\"");
    push_str(&mut out, champion_id);
    push_str(&mut out, "\",\"class_key\":\"");
    push_escaped(&mut out, class_key);
    push_str(&mut out, "\",\"status\":\"");
    push_escaped(&mut out, status);
    push_str(&mut out, "\"}");
    proof {
        assert(out@ =~= champion_details_spec(id@, champion_id@, class_key@, status@));
    }
    out
}

/// The details of a live town.
pub open spec fn town_details_spec(id: Seq<char>, town_id: Seq<char>, status: Seq<char>) -> Seq<char> {
    "{\"type\":\"town\",\"scenario_key\":\""@ + escape_seq(id) + "\",\"town_id\":\""@ + town_id + "\",\"status\":\""@
        + escape_seq(status) + "\"}"@
}

fn town_details_json(id: &str, town_id: &str, status: &str) -> (json: String)
    ensures
        json@ == town_details_spec(id@, town_id@, status@),
{
    let mut out = String::new();
    push_str(&mut out, "{\"type\":\"town\",\"scenario_key\":\"");
    push_escaped(&mut out, id);
    push_str(&mut out, "\",\"town_id\":\"");
    push_str(&mut out, town_id);
    push_str(&mut out, "\",\"status\":\"");
    push_escaped(&mut out, status);
    push_str(&mut out, "\"}");
    proof {
        assert(out@ =~= town_details_spec(id@, town_id@, status@));
    }
    out
}

/// The details of a subject of kind `kind` (`champion` or `town`) known
/// from the scenario's starts: active.
pub open spec fn start_details_spec(kind: Seq<char>, id: Seq<char>) -> Seq<char> {
    "{\"type\":\""@ + kind + "\",\"scenario_key\":\""@ + escape_seq(id) + "\",\"status\":\"active\"}"@
}

fn start_details_json(kind: &str, id: &str) -> (json: String)
    ensures
        json@ == start_details_spec(kind@, id@),
{
    let mut out = String::new();
    push_str(&mut out, "{\"type\":\"");
    push_str(&mut out, kind);
    push_str(&mut out, "\",\"scenario_key\":\"");
    push_escaped(&mut out, id);
    push_str(&mut out, "\",\"status\":\"active\"}");
    proof {
        assert(out@ =~= start_details_spec(kind@, id@));
    }
    out
}

fn world_object_details(id: &str, o: &LiveWorldObject) -> (json: String)
    ensures
        json@ == world_object_details_spec(id@, o.object_id@, o.instance_json.deep_view(), o.state@, o.scoring_kind@),
{
    let instance: Option<&str> = match &o.instance_json {
        Some(j) => Some(j.as_str()),
        None => None,
    };
    world_object_live_details_json(id, o.object_id.as_str(), instance, o.state.as_str(), o.scoring_kind.as_str())
}

/// The view of a world object in a listing: the live object found at the
/// subject's cell (none when a listing of live objects was given and holds
/// none there, or when it is collected), else the subject as an available
/// object; none when a visibility map was given and the cell is not visible.
pub open spec fn world_object_list_spec(
    subject: ObjectSubject,
    live: Option<LiveWorldObject>,
    live_listing_given: bool,
    visible: Option<bool>,
    turn: u32,
) -> Option<ObjectViewModel> {
    let id = subject.subject_id_text@;
    match live {
        None => if live_listing_given || visible == Some(false) {
            None
        } else {
            Some(live_model(subject, subject.x, subject.y, turn, Some(id), None, None,
                world_object_plain_details_spec(id, "available"@, if has_prefix(id, "mine:"@) { "mine"@ } else { "world_object"@ })))
        },
        Some(o) => if o.state@ == "collected"@ || visible == Some(false) {
            None
        } else {
            Some(live_model(subject, o.x, o.y, turn, Some(id), None, o.owner_participant_id.deep_view(),
                world_object_details_spec(id, o.object_id@, o.instance_json.deep_view(), o.state@, o.scoring_kind@)))
        },
    }
}

/// The view of a world object in a listing.
pub fn world_object_list_view(
    subject: &ObjectSubject,
    live: &Option<LiveWorldObject>,
    live_listing_given: bool,
    visible: Option<bool>,
    turn: u32,
) -> (v: Option<ObjectView>)
    ensures
        view_opt(v) == world_object_list_spec(*subject, *live, live_listing_given, visible, turn),
{
    let id = subject.subject_id_text.as_str();
    match live {
        None => {
            if live_listing_given || visible == Some(false) {
                return None;
            }
            let scoring_kind = if starts_with(id, "mine:") { "mine" } else { "world_object" };
            let details = world_object_plain_details_json(id, "available", scoring_kind);
            Some(live_view(subject, subject.x, subject.y, turn, Some(id.to_owned()), None, None, details))
        },
        Some(o) => {
            if str_eq(o.state.as_str(), "collected") || visible == Some(false) {
                return None;
            }
            let details = world_object_details(id, o);
            Some(live_view(subject, o.x, o.y, turn, Some(id.to_owned()), None, copy_text(&o.owner_participant_id), details))
        },
    }
}

/// The name a world object is shown with: the `object_slug` of its
/// instance JSON, else the subject's id.
pub open spec fn world_object_name_spec(id: Seq<char>, instance_json: Option<Seq<char>>) -> Seq<char> {
    match instance_json {
        Some(j) => match json_string_field_spec(j, "object_slug"@) {
            Some(v) => v,
            None => id,
        },
        None => id,
    }
}

/// Whether the scenario start of `slot` has the champion `id`.
pub open spec fn champion_start_owned(c: ScenarioContent, id: Seq<char>, slot: u8) -> bool {
    exists|i: int| 0 <= i < c.starts@.len() && #[trigger] c.starts@[i].champion_key@ == id && c.starts@[i].slot_index == slot
}

/// Whether the scenario start of `slot` has the town `id`.
pub open spec fn town_start_owned(c: ScenarioContent, id: Seq<char>, slot: u8) -> bool {
    exists|i: int| 0 <= i < c.starts@.len() && #[trigger] c.starts@[i].town_key@ == id && c.starts@[i].slot_index == slot
}

/// Whether a champion status is shown on the map.
pub open spec fn champion_on_map(status: Seq<char>) -> bool {
    status == "active"@ || status == "in_battle"@
}

/// The view of a known object:
/// - a world object in a viewport as in a listing; else its live state, if
///   found and not collected;
/// - a neutral army alive where it can be seen (in a viewport with the
///   scenario's name and sprite; otherwise as a neutral army, or last
///   known where a visibility map says it cannot be seen);
/// - a champion on the map where it stands; not found, in a viewport as the
///   scenario names it (owned by the viewer when it is the champion of the
///   viewer's start), else last known;
/// - a town: in a viewport, the viewer's own start town as the scenario
///   names it; else an active live town where it stands, or last known;
/// - anything else last known.
pub open spec fn object_view_spec(
    subject: ObjectSubject,
    viewport: Option<Viewport>,
    live: LiveFacts,
    live_listing_given: bool,
    visible: Option<bool>,
    content: ScenarioContent,
    viewer: Viewer,
) -> Option<ObjectViewModel> {
    let kind = subject.subject_kind@;
    let id = subject.subject_id_text@;
    let turn = viewer.current_turn;
    let details = subject_details_spec(content, kind, id);
    if kind == "world_object"@ {
        if viewport is Some {
            world_object_list_spec(subject, live.world_object, live_listing_given, visible, turn)
        } else {
            match live.world_object {
                None => None,
                Some(o) => if o.state@ == "collected"@ {
                    None
                } else {
                    Some(live_model(subject, o.x, o.y, turn, Some(world_object_name_spec(id, o.instance_json.deep_view())), None,
                        o.owner_participant_id.deep_view(),
                        world_object_details_spec(id, o.object_id@, o.instance_json.deep_view(), o.state@, o.scoring_kind@)))
                },
            }
        }
    } else if kind == "neutral_army"@ {
        match live.neutral {
            None => None,
            Some(n) => if n.state@ == "defeated"@ {
                None
            } else if viewport is Some {
                if visible == Some(false) || outside(viewport, n.x, n.y) {
                    None
                } else {
                    Some(live_model(subject, n.x, n.y, turn, Some(details.0), details.1, None,
                        neutral_army_details_spec(id, n.neutral_army_id@, n.state@)))
                }
            } else if visible == Some(false) {
                last_known_spec(subject, viewport)
            } else {
                Some(live_model(subject, n.x, n.y, turn, Some("Neutral Army"@), None, None,
                    neutral_army_details_spec(id, n.neutral_army_id@, n.state@)))
            },
        }
    } else if kind == "champion"@ {
        match live.champion {
            Some(c) => if !champion_on_map(c.status@) || outside(viewport, c.x, c.y) {
                None
            } else {
                Some(live_model(subject, c.x, c.y, turn, Some(c.name@), None, Some(c.participant_id@),
                    champion_details_spec(id, c.champion_id@, c.class_key@, c.status@)))
            },
            None => if viewport is Some {
                Some(live_model(subject, subject.x, subject.y, turn, Some(details.0), details.1,
                    if champion_start_owned(content, id, viewer.slot_index) { Some(viewer.participant_id@) } else { None },
                    start_details_spec("champion"@, id)))
            } else {
                last_known_spec(subject, viewport)
            },
        }
    } else if kind == "town"@ {
        if viewport is Some && town_start_owned(content, id, viewer.slot_index) {
            Some(live_model(subject, subject.x, subject.y, turn, Some(details.0), details.1, Some(viewer.participant_id@),
                start_details_spec("town"@, id)))
        } else {
            match live.town {
                Some(t) => if t.status@ != "active"@ || outside(viewport, t.x, t.y) {
                    None
                } else {
                    Some(live_model(subject, t.x, t.y, turn, Some(t.name@), if viewport is Some { details.1 } else { None },
                        t.owner_participant_id.deep_view(), town_details_spec(id, t.town_id@, t.status@)))
                },
                None => last_known_spec(subject, viewport),
            }
        }
    } else {
        last_known_spec(subject, viewport)
    }
}

fn neutral_view(
    subject: &ObjectSubject,
    viewport: Option<Viewport>,
    live: &Option<LiveNeutral>,
    visible: Option<bool>,
    content: &ScenarioContent,
    viewer: &Viewer,
) -> (v: Option<ObjectView>)
    requires
        subject.subject_kind@ == "neutral_army"@,
    ensures
        view_opt(v) == object_view_spec(*subject, viewport, LiveFacts { world_object: None, neutral: *live, champion: None, town: None },
            false, visible, *content, *viewer),
{
    proof {
        reveal_strlit("world_object");
        reveal_strlit("neutral_army");
    }
    let id = subject.subject_id_text.as_str();
    match live {
        None => None,
        Some(n) => {
            if str_eq(n.state.as_str(), "defeated") {
                return None;
            }
            let details_json = neutral_army_details_json(id, n.neutral_army_id.as_str(), n.state.as_str());
            if viewport.is_some() {
                if visible == Some(false) || is_outside(viewport, n.x, n.y) {
                    return None;
                }
                let details = content.scenario_subject_details(subject.subject_kind.as_str(), id);
                Some(live_view(subject, n.x, n.y, viewer.current_turn, Some(details.display_name), details.asset_key, None, details_json))
            } else if visible == Some(false) {
                last_known_object_view(subject, viewport)
            } else {
                Some(live_view(subject, n.x, n.y, viewer.current_turn, Some("Neutral Army".to_owned()), None, None, details_json))
            }
        },
    }
}

fn champion_known_view(
    subject: &ObjectSubject,
    viewport: Option<Viewport>,
    live: &Option<LiveChampion>,
    content: &ScenarioContent,
    viewer: &Viewer,
) -> (v: Option<ObjectView>)
    requires
        subject.subject_kind@ == "champion"@,
    ensures
        view_opt(v) == object_view_spec(*subject, viewport, LiveFacts { world_object: None, neutral: None, champion: *live, town: None },
            false, None, *content, *viewer),
{
    proof {
        reveal_strlit("world_object");
        reveal_strlit("neutral_army");
        reveal_strlit("champion");
    }
    let id = subject.subject_id_text.as_str();
    match live {
        Some(c) => {
            let on_map = str_eq(c.status.as_str(), "active") || str_eq(c.status.as_str(), "in_battle");
            if !on_map || is_outside(viewport, c.x, c.y) {
                return None;
            }
            let details_json = champion_details_json(id, c.champion_id.as_str(), c.class_key.as_str(), c.status.as_str());
            Some(live_view(subject, c.x, c.y, viewer.current_turn, Some(c.name.clone()), None, Some(c.participant_id.clone()), details_json))
        },
        None => {
            if viewport.is_some() {
                let details = content.scenario_subject_details(subject.subject_kind.as_str(), id);
                let owner = if content.champion_start_of_slot(id, viewer.slot_index) {
                    Some(viewer.participant_id.clone())
                } else {
                    None
                };
                let details_json = start_details_json("champion", id);
                Some(live_view(subject, subject.x, subject.y, viewer.current_turn, Some(details.display_name), details.asset_key, owner, details_json))
            } else {
                last_known_object_view(subject, viewport)
            }
        },
    }
}

fn town_known_view(
    subject: &ObjectSubject,
    viewport: Option<Viewport>,
    live: &Option<LiveTown>,
    content: &ScenarioContent,
    viewer: &Viewer,
) -> (v: Option<ObjectView>)
    requires
        subject.subject_kind@ == "town"@,
    ensures
        view_opt(v) == object_view_spec(*subject, viewport, LiveFacts { world_object: None, neutral: None, champion: None, town: *live },
            false, None, *content, *viewer),
{
    proof {
        reveal_strlit("world_object");
        reveal_strlit("neutral_army");
        reveal_strlit("champion");
        reveal_strlit("town");
    }
    let id = subject.subject_id_text.as_str();
    if viewport.is_some() && content.town_start_of_slot(id, viewer.slot_index) {
        let details = content.scenario_subject_details(subject.subject_kind.as_str(), id);
        let details_json = start_details_json("town", id);
        return Some(live_view(subject, subject.x, subject.y, viewer.current_turn, Some(details.display_name), details.asset_key,
            Some(viewer.participant_id.clone()), details_json));
    }
    match live {
        Some(t) => {
            if !str_eq(t.status.as_str(), "active") || is_outside(viewport, t.x, t.y) {
                return None;
            }
            let asset_key = if viewport.is_some() {
                content.scenario_subject_details(subject.subject_kind.as_str(), id).asset_key
            } else {
                None
            };
            let details_json = town_details_json(id, t.town_id.as_str(), t.status.as_str());
            Some(live_view(subject, t.x, t.y, viewer.current_turn, Some(t.name.clone()), asset_key,
                copy_text(&t.owner_participant_id), details_json))
        },
        None => last_known_object_view(subject, viewport),
    }
}

fn world_object_known_view(subject: &ObjectSubject, live: &Option<LiveWorldObject>, content: &ScenarioContent, viewer: &Viewer) -> (v: Option<ObjectView>)
    requires
        subject.subject_kind@ == "world_object"@,
    ensures
        view_opt(v) == object_view_spec(*subject, None, LiveFacts { world_object: *live, neutral: None, champion: None, town: None },
            false, None, *content, *viewer),
{
    proof {
        reveal_strlit("world_object");
    }
    let id = subject.subject_id_text.as_str();
    match live {
        None => None,
        Some(o) => {
            if str_eq(o.state.as_str(), "collected") {
                return None;
            }
            let instance: Option<&str> = match &o.instance_json {
                Some(j) => Some(j.as_str()),
                None => None,
            };
            let name = match json_string_field_in(instance, "object_slug") {
                Some(slug) => slug,
                None => id.to_owned(),
            };
            let details = world_object_details(id, o);
            Some(live_view(subject, o.x, o.y, viewer.current_turn, Some(name), None, copy_text(&o.owner_participant_id), details))
        },
    }
}

/// The view a viewer gets of a known subject, from what was found live of
/// it. `live_listing_given` says that the live world objects were listed
/// beforehand (so a world object missing from the listing is gone);
/// `visible`, where a visibility map is given, whether the cell the view
/// would show is visible on it.
pub fn object_view_from_known(
    subject: &ObjectSubject,
    viewport: Option<Viewport>,
    live: &LiveFacts,
    live_listing_given: bool,
    visible: Option<bool>,
    content: &ScenarioContent,
    viewer: &Viewer,
) -> (v: Option<ObjectView>)
    ensures
        view_opt(v) == object_view_spec(*subject, viewport, *live, live_listing_given, visible, *content, *viewer),
{
    proof {
        reveal_strlit("world_object");
        reveal_strlit("neutral_army");
        reveal_strlit("champion");
        reveal_strlit("town");
    }
    let kind = subject.subject_kind.as_str();
    if str_eq(kind, "world_object") {
        if viewport.is_some() {
            world_object_list_view(subject, &live.world_object, live_listing_given, visible, viewer.current_turn)
        } else {
            world_object_known_view(subject, &live.world_object, content, viewer)
        }
    } else if str_eq(kind, "neutral_army") {
        neutral_view(subject, viewport, &live.neutral, visible, content, viewer)
    } else if str_eq(kind, "champion") {
        champion_known_view(subject, viewport, &live.champion, content, viewer)
    } else if str_eq(kind, "town") {
        town_known_view(subject, viewport, &live.town, content, viewer)
    } else {
        last_known_object_view(subject, viewport)
    }
}

} // verus!
