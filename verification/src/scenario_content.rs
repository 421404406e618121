//! The static content of the playable scenario that the rendered view reads:
//! the player starts, the neutral guards, the map objects, and the names and
//! sprites of the object definitions.
use vstd::prelude::*;
use crate::seqs::{find_first, lemma_find_first_is, lemma_find_first_none};
use crate::text::{push_str, str_eq};

verus! {

/// One player start of the scenario.
pub struct ScenarioStart {
    pub slot_index: u8,
    pub town_key: String,
    pub town_name: String,
    pub town_x: u16,
    pub town_y: u16,
    pub faction_slug: String,
    pub champion_key: String,
    pub champion_name: String,
    pub champion_class_slug: String,
}

/// A neutral guard placed by the scenario.
pub struct ScenarioNeutral {
    pub key: String,
    pub strength_band: String,
}

/// A map object placed by the scenario, with the slug of its definition.
pub struct ScenarioObject {
    pub key: String,
    pub object_slug: String,
}

/// The definition of a kind of map object.
pub struct MapObjectDefinition {
    pub slug: String,
    pub name: String,
    pub sprite_key: Option<String>,
}

/// The content the rendered view reads. `objects` holds the mines, the
/// external dwellings and the central objectives, in that order.
pub struct ScenarioContent {
    pub starts: Vec<ScenarioStart>,
    pub neutral_armies: Vec<ScenarioNeutral>,
    pub objects: Vec<ScenarioObject>,
    pub resource_piles: Vec<ScenarioObject>,
    pub map_objects: Vec<MapObjectDefinition>,
}

/// The name and sprite a subject is shown with.
pub struct SubjectDetails {
    pub display_name: String,
    pub asset_key: Option<String>,
}

pub open spec fn town_key_is(key: Seq<char>) -> spec_fn(ScenarioStart) -> bool {
    |s: ScenarioStart| s.town_key@ == key
}

pub open spec fn champion_key_is(key: Seq<char>) -> spec_fn(ScenarioStart) -> bool {
    |s: ScenarioStart| s.champion_key@ == key
}

pub open spec fn town_at(x: u16, y: u16) -> spec_fn(ScenarioStart) -> bool {
    |s: ScenarioStart| s.town_x == x && s.town_y == y
}

pub open spec fn neutral_key_is(key: Seq<char>) -> spec_fn(ScenarioNeutral) -> bool {
    |n: ScenarioNeutral| n.key@ == key
}

pub open spec fn object_key_is(key: Seq<char>) -> spec_fn(ScenarioObject) -> bool {
    |o: ScenarioObject| o.key@ == key
}

pub open spec fn definition_slug_is(slug: Seq<char>) -> spec_fn(MapObjectDefinition) -> bool {
    |d: MapObjectDefinition| d.slug@ == slug
}

fn find_start_by_town_key(starts: &Vec<ScenarioStart>, key: &str) -> (found: Option<usize>)
    ensures
        match found {
            Some(i) => i < starts@.len() && i as int == find_first(starts@, town_key_is(key@)),
            None => find_first(starts@, town_key_is(key@)) == -1,
        },
{
    let mut i: usize = 0;
    while i < starts.len()
        invariant
            i <= starts@.len(),
            forall|j: int| 0 <= j < i ==> !(#[trigger] town_key_is(key@)(starts@[j])),
        decreases starts@.len() - i,
    {
        if str_eq(starts[i].town_key.as_str(), key) {
            proof {
                lemma_find_first_is(starts@, town_key_is(key@), i as int);
            }
            return Some(i);
        }
        i = i + 1;
    }
    proof {
        lemma_find_first_none(starts@, town_key_is(key@));
    }
    None
}

fn find_start_by_champion_key(starts: &Vec<ScenarioStart>, key: &str) -> (found: Option<usize>)
    ensures
        match found {
            Some(i) => i < starts@.len() && i as int == find_first(starts@, champion_key_is(key@)),
            None => find_first(starts@, champion_key_is(key@)) == -1,
        },
{
    let mut i: usize = 0;
    while i < starts.len()
        invariant
            i <= starts@.len(),
            forall|j: int| 0 <= j < i ==> !(#[trigger] champion_key_is(key@)(starts@[j])),
        decreases starts@.len() - i,
    {
        if str_eq(starts[i].champion_key.as_str(), key) {
            proof {
                lemma_find_first_is(starts@, champion_key_is(key@), i as int);
            }
            return Some(i);
        }
        i = i + 1;
    }
    proof {
        lemma_find_first_none(starts@, champion_key_is(key@));
    }
    None
}

fn find_neutral(neutrals: &Vec<ScenarioNeutral>, key: &str) -> (found: Option<usize>)
    ensures
        match found {
            Some(i) => i < neutrals@.len() && i as int == find_first(neutrals@, neutral_key_is(key@)),
            None => find_first(neutrals@, neutral_key_is(key@)) == -1,
        },
{
    let mut i: usize = 0;
    while i < neutrals.len()
        invariant
            i <= neutrals@.len(),
            forall|j: int| 0 <= j < i ==> !(#[trigger] neutral_key_is(key@)(neutrals@[j])),
        decreases neutrals@.len() - i,
    {
        if str_eq(neutrals[i].key.as_str(), key) {
            proof {
                lemma_find_first_is(neutrals@, neutral_key_is(key@), i as int);
            }
            return Some(i);
        }
        i = i + 1;
    }
    proof {
        lemma_find_first_none(neutrals@, neutral_key_is(key@));
    }
    None
}

fn find_object(objects: &Vec<ScenarioObject>, key: &str) -> (found: Option<usize>)
    ensures
        match found {
            Some(i) => i < objects@.len() && i as int == find_first(objects@, object_key_is(key@)),
            None => find_first(objects@, object_key_is(key@)) == -1,
        },
{
    let mut i: usize = 0;
    while i < objects.len()
        invariant
            i <= objects@.len(),
            forall|j: int| 0 <= j < i ==> !(#[trigger] object_key_is(key@)(objects@[j])),
        decreases objects@.len() - i,
    {
        if str_eq(objects[i].key.as_str(), key) {
            proof {
                lemma_find_first_is(objects@, object_key_is(key@), i as int);
            }
            return Some(i);
        }
        i = i + 1;
    }
    proof {
        lemma_find_first_none(objects@, object_key_is(key@));
    }
    None
}

fn find_definition(definitions: &Vec<MapObjectDefinition>, slug: &str) -> (found: Option<usize>)
    ensures
        match found {
            Some(i) => i < definitions@.len() && i as int == find_first(definitions@, definition_slug_is(slug@)),
            None => find_first(definitions@, definition_slug_is(slug@)) == -1,
        },
{
    let mut i: usize = 0;
    while i < definitions.len()
        invariant
            i <= definitions@.len(),
            forall|j: int| 0 <= j < i ==> !(#[trigger] definition_slug_is(slug@)(definitions@[j])),
        decreases definitions@.len() - i,
    {
        if str_eq(definitions[i].slug.as_str(), slug) {
            proof {
                lemma_find_first_is(definitions@, definition_slug_is(slug@), i as int);
            }
            return Some(i);
        }
        i = i + 1;
    }
    proof {
        lemma_find_first_none(definitions@, definition_slug_is(slug@));
    }
    None
}

/// The slug of the scenario object with key `key`: the first among the
/// placed objects, else among the resource piles.
pub open spec fn object_slug_of(c: ScenarioContent, key: Seq<char>) -> Option<Seq<char>> {
    let oi = find_first(c.objects@, object_key_is(key));
    let pi = find_first(c.resource_piles@, object_key_is(key));
    if oi >= 0 {
        Some(c.objects@[oi].object_slug@)
    } else if pi >= 0 {
        Some(c.resource_piles@[pi].object_slug@)
    } else {
        None
    }
}

/// The name and sprite of a subject, as the scenario gives them: a start's
/// town or champion, a neutral guard's strength band, an object's
/// definition (or its bare slug); else the subject's own id.
pub open spec fn subject_details_spec(c: ScenarioContent, kind: Seq<char>, id: Seq<char>) -> (Seq<char>, Option<Seq<char>>) {
    let ti = find_first(c.starts@, town_key_is(id));
    let ci = find_first(c.starts@, champion_key_is(id));
    let ni = find_first(c.neutral_armies@, neutral_key_is(id));
    if kind == "town"@ && ti >= 0 {
        (c.starts@[ti].town_name@, Some("sprite:town:"@ + c.starts@[ti].faction_slug@))
    } else if kind == "champion"@ && ci >= 0 {
        (c.starts@[ci].champion_name@, Some("sprite:champion:"@ + c.starts@[ci].champion_class_slug@))
    } else if kind == "neutral_army"@ && ni >= 0 {
        ("Neutral Guard ("@ + c.neutral_armies@[ni].strength_band@ + ")"@, Some("sprite:unit:broken-pike"@))
    } else {
        match object_slug_of(c, id) {
            Some(slug) => {
                let di = find_first(c.map_objects@, definition_slug_is(slug));
                if di >= 0 {
                    (c.map_objects@[di].name@, c.map_objects@[di].sprite_key.deep_view())
                } else {
                    (slug, None)
                }
            },
            None => (id, None),
        }
    }
}

fn copy_text(s: &Option<String>) -> (copy: Option<String>)
    ensures
        copy == *s,
{
    match s {
        Some(t) => Some(t.clone()),
        None => None,
    }
}

fn prefixed(prefix: &str, rest: &str) -> (s: String)
    ensures
        s@ == prefix@ + rest@,
{
    let mut s = String::new();
    push_str(&mut s, prefix);
    push_str(&mut s, rest);
    proof {
        assert(s@ =~= prefix@ + rest@);
    }
    s
}

impl ScenarioContent {
    /// The name and sprite the subject of kind `kind` and id `id` is shown with.
    pub fn scenario_subject_details(&self, kind: &str, id: &str) -> (details: SubjectDetails)
        ensures
            (details.display_name@, details.asset_key.deep_view()) == subject_details_spec(*self, kind@, id@),
    {
        proof {
            reveal_strlit("town");
            reveal_strlit("champion");
            reveal_strlit("neutral_army");
        }
        if str_eq(kind, "town") {
            if let Some(i) = find_start_by_town_key(&self.starts, id) {
                let start = &self.starts[i];
                return SubjectDetails {
                    display_name: start.town_name.clone(),
                    asset_key: Some(prefixed("sprite:town:", start.faction_slug.as_str())),
                };
            }
        }
        if str_eq(kind, "champion") {
            if let Some(i) = find_start_by_champion_key(&self.starts, id) {
                let start = &self.starts[i];
                return SubjectDetails {
                    display_name: start.champion_name.clone(),
                    asset_key: Some(prefixed("sprite:champion:", start.champion_class_slug.as_str())),
                };
            }
        }
        if str_eq(kind, "neutral_army") {
            if let Some(i) = find_neutral(&self.neutral_armies, id) {
                let mut name = prefixed("Neutral Guard (", self.neutral_armies[i].strength_band.as_str());
                push_str(&mut name, ")");
                return SubjectDetails { display_name: name, asset_key: Some("sprite:unit:broken-pike".to_owned()) };
            }
        }
        let slug: Option<String> = match find_object(&self.objects, id) {
            Some(i) => Some(self.objects[i].object_slug.clone()),
            None => match find_object(&self.resource_piles, id) {
                Some(i) => Some(self.resource_piles[i].object_slug.clone()),
                None => None,
            },
        };
        match slug {
            Some(slug) => match find_definition(&self.map_objects, slug.as_str()) {
                Some(d) => SubjectDetails {
                    display_name: self.map_objects[d].name.clone(),
                    asset_key: copy_text(&self.map_objects[d].sprite_key),
                },
                None => SubjectDetails { display_name: slug, asset_key: None },
            },
            None => SubjectDetails { display_name: id.to_owned(), asset_key: None },
        }
    }

    /// Whether the scenario's start for `slot` has the champion `key`.
    pub fn champion_start_of_slot(&self, key: &str, slot: u8) -> (owned: bool)
        ensures
            owned == exists|i: int| 0 <= i < self.starts@.len() && #[trigger] self.starts@[i].champion_key@ == key@
                && self.starts@[i].slot_index == slot,
    {
        let mut i: usize = 0;
        while i < self.starts.len()
            invariant
                i <= self.starts@.len(),
                forall|j: int| 0 <= j < i ==> !(#[trigger] self.starts@[j].champion_key@ == key@ && self.starts@[j].slot_index == slot),
            decreases self.starts@.len() - i,
        {
            if self.starts[i].slot_index == slot && str_eq(self.starts[i].champion_key.as_str(), key) {
                return true;
            }
            i = i + 1;
        }
        false
    }

    /// Whether the scenario's start for `slot` has the town `key`.
    pub fn town_start_of_slot(&self, key: &str, slot: u8) -> (owned: bool)
        ensures
            owned == exists|i: int| 0 <= i < self.starts@.len() && #[trigger] self.starts@[i].town_key@ == key@
                && self.starts@[i].slot_index == slot,
    {
        let mut i: usize = 0;
        while i < self.starts.len()
            invariant
                i <= self.starts@.len(),
                forall|j: int| 0 <= j < i ==> !(#[trigger] self.starts@[j].town_key@ == key@ && self.starts@[j].slot_index == slot),
            decreases self.starts@.len() - i,
        {
            if self.starts[i].slot_index == slot && str_eq(self.starts[i].town_key.as_str(), key) {
                return true;
            }
            i = i + 1;
        }
        false
    }

    /// The faction of the town at `(x, y)`: that of the first start whose
    /// town stands there, else `unknown`.
    pub fn town_faction_slug(&self, x: u16, y: u16) -> (slug: String)
        ensures
            slug@ == ({
                let i = find_first(self.starts@, town_at(x, y));
                if i >= 0 { self.starts@[i].faction_slug@ } else { "unknown"@ }
            }),
    {
        let mut i: usize = 0;
        while i < self.starts.len()
            invariant
                i <= self.starts@.len(),
                forall|j: int| 0 <= j < i ==> !(#[trigger] town_at(x, y)(self.starts@[j])),
            decreases self.starts@.len() - i,
        {
            if self.starts[i].town_x == x && self.starts[i].town_y == y {
                proof {
                    lemma_find_first_is(self.starts@, town_at(x, y), i as int);
                }
                return self.starts[i].faction_slug.clone();
            }
            i = i + 1;
        }
        proof {
            lemma_find_first_none(self.starts@, town_at(x, y));
        }
        "unknown".to_owned()
    }
}

} // verus!
