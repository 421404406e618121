//! Small rules of the rendered world view: how strong an army looks, and
//! which map chunks a viewport touches.
use vstd::prelude::*;
use crate::json::{json_string_field_in, json_string_field_spec};
use crate::movement_rules::sat_add_u16;
use crate::text::{escape_seq, push_escaped, push_str};

verus! {

/// Total of the quantities.
pub open spec fn total_quantity(quantities: Seq<u32>) -> nat
    decreases quantities.len(),
{
    if quantities.len() == 0 {
        0
    } else {
        total_quantity(quantities.drop_last()) + quantities.last() as nat
    }
}

/// The label shown for an army of `total` units.
pub open spec fn strength_label_spec(total: nat) -> Seq<char> {
    if total == 0 {
        "none"@
    } else if total <= 20 {
        "small"@
    } else if total <= 60 {
        "modest"@
    } else {
        "large"@
    }
}

/// How strong an army with stacks of the given quantities looks.
pub fn strength_label(quantities: &Vec<u32>) -> (label: String)
    requires
        total_quantity(quantities@) <= u32::MAX,
    ensures
        label@ == strength_label_spec(total_quantity(quantities@)),
{
    let n = quantities.len();
    let mut total: u32 = 0;
    let mut i: usize = 0;
    while i < n
        invariant
            n == quantities@.len(),
            i <= n,
            total == total_quantity(quantities@.take(i as int)),
            total_quantity(quantities@) <= u32::MAX,
        decreases n - i,
    {
        proof {
            assert(quantities@.take(i + 1).drop_last() =~= quantities@.take(i as int));
            lemma_total_prefix(quantities@, i as int + 1);
        }
        total = total + quantities[i];
        i = i + 1;
    }
    proof {
        assert(quantities@.take(n as int) =~= quantities@);
    }
    let label = if total == 0 {
        "none"
    } else if total <= 20 {
        "small"
    } else if total <= 60 {
        "modest"
    } else {
        "large"
    };
    label.to_owned()
}

/// The total of a prefix is at most the total of the whole.
proof fn lemma_total_prefix(s: Seq<u32>, k: int)
    requires
        0 <= k <= s.len(),
    ensures
        total_quantity(s.take(k)) <= total_quantity(s),
    decreases s.len() - k,
{
    if k < s.len() {
        lemma_total_prefix(s, k + 1);
        assert(s.take(k + 1).drop_last() =~= s.take(k));
    } else {
        assert(s.take(k) =~= s);
    }
}

/// Whether the chunk at chunk coordinates `(chunk_x, chunk_y)`, of
/// `width` by `height` cells, overlaps the viewport of `view_width` by
/// `view_height` cells at `(view_x, view_y)` (far edges saturating).
pub fn chunk_intersects_viewport(
    chunk_size: u8,
    chunk_x: u16,
    chunk_y: u16,
    width: u8,
    height: u8,
    view_x: u16,
    view_y: u16,
    view_width: u16,
    view_height: u16,
) -> (touches: bool)
    requires
        chunk_x * chunk_size <= u16::MAX,
        chunk_y * chunk_size <= u16::MAX,
    ensures
        touches == ({
            let min_x = (chunk_x * chunk_size) as u16;
            let min_y = (chunk_y * chunk_size) as u16;
            &&& view_x < sat_add_u16(min_x, width as u16)
            &&& sat_add_u16(view_x, view_width) > min_x
            &&& view_y < sat_add_u16(min_y, height as u16)
            &&& sat_add_u16(view_y, view_height) > min_y
        }),
{
    let size = chunk_size as u16;
    let chunk_min_x = chunk_x * size;
    let chunk_min_y = chunk_y * size;
    let chunk_max_x = chunk_min_x.saturating_add(width as u16);
    let chunk_max_y = chunk_min_y.saturating_add(height as u16);
    let view_max_x = view_x.saturating_add(view_width);
    let view_max_y = view_y.saturating_add(view_height);
    view_x < chunk_max_x && view_max_x > chunk_min_x && view_y < chunk_max_y && view_max_y > chunk_min_y
}

/// The chunk coordinate of a cell coordinate, with the session's chunk
/// size when known (at least 1) and 16 otherwise.
pub fn runtime_chunk_coord(session_chunk_size: Option<u8>, value: u16) -> (c: u16)
    ensures
        c == value / (match session_chunk_size {
            Some(s) => if s >= 1 { s as u16 } else { 1u16 },
            None => 16u16,
        }),
{
    let chunk_size: u16 = match session_chunk_size {
        Some(s) => if s >= 1 { s as u16 } else { 1 },
        None => 16,
    };
    value / chunk_size
}


/// The live details of a neutral army.
pub open spec fn neutral_army_details_spec(scenario_key: Seq<char>, neutral_army_id: Seq<char>, state: Seq<char>) -> Seq<char> {
    "{\"type\":\"neutral_army\",\"scenario_key\":\""@ + escape_seq(scenario_key) + "\",\"neutral_army_id\":\""@
        + neutral_army_id + "\",\"state\":\""@ + escape_seq(state) + "\"}"@
}

/// The live details of a neutral army, as JSON.
pub fn neutral_army_details_json(scenario_key: &str, neutral_army_id: &str, state: &str) -> (json: String)
    ensures
        json@ == neutral_army_details_spec(scenario_key@, neutral_army_id@, state@),
{
    let mut out = String::new();
    push_str(&mut out, "{\"type\":\"neutral_army\",\"scenario_key\":\"");
    push_escaped(&mut out, scenario_key);
    push_str(&mut out, "\",\"neutral_army_id\":\"");
    push_str(&mut out, neutral_army_id);
    push_str(&mut out, "\",\"state\":\"");
    push_escaped(&mut out, state);
    push_str(&mut out, "\"}");
    proof {
        assert(out@ =~= neutral_army_details_spec(scenario_key@, neutral_army_id@, state@));
    }
    out
}

/// The slug of a world object: the `object_slug` field of its instance
/// JSON, or `unknown`.
pub open spec fn object_slug_spec(instance_json: Option<Seq<char>>) -> Seq<char> {
    match instance_json {
        Some(j) => match json_string_field_spec(j, "object_slug"@) {
            Some(v) => v,
            None => "unknown"@,
        },
        None => "unknown"@,
    }
}

/// The live details of a world object.
pub open spec fn world_object_details_spec(
    scenario_key: Seq<char>,
    object_id: Seq<char>,
    instance_json: Option<Seq<char>>,
    state: Seq<char>,
    scoring_kind: Seq<char>,
) -> Seq<char> {
    "{\"type\":\"world_object\",\"scenario_key\":\""@ + escape_seq(scenario_key) + "\",\"object_id\":\""@ + object_id
        + "\",\"object_slug\":\""@ + escape_seq(object_slug_spec(instance_json)) + "\",\"state\":\""@ + escape_seq(state)
        + "\",\"scoring_kind\":\""@ + escape_seq(scoring_kind) + "\"}"@
}

/// The live details of a world object, as JSON.
pub fn world_object_live_details_json(
    scenario_key: &str,
    object_id: &str,
    instance_json: Option<&str>,
    state: &str,
    scoring_kind: &str,
) -> (json: String)
    ensures
        json@ == world_object_details_spec(
            scenario_key@,
            object_id@,
            match instance_json {
                Some(j) => Some(j@),
                None => None,
            },
            state@,
            scoring_kind@,
        ),
{
    let slug = match json_string_field_in(instance_json, "object_slug") {
        Some(s) => s,
        None => "unknown".to_owned(),
    };
    let mut out = String::new();
    push_str(&mut out, "{\"type\":\"world_object\",\"scenario_key\":\"");
    push_escaped(&mut out, scenario_key);
    push_str(&mut out, "\",\"object_id\":\"");
    push_str(&mut out, object_id);
    push_str(&mut out, "\",\"object_slug\":\"");
    push_escaped(&mut out, slug.as_str());
    push_str(&mut out, "\",\"state\":\"");
    push_escaped(&mut out, state);
    push_str(&mut out, "\",\"scoring_kind\":\"");
    push_escaped(&mut out, scoring_kind);
    push_str(&mut out, "\"}");
    proof {
        let ij = match instance_json {
            Some(j) => Some(j@),
            None => None,
        };
        assert(slug@ == object_slug_spec(ij));
        assert(out@ =~= world_object_details_spec(scenario_key@, object_id@, ij, state@, scoring_kind@));
    }
    out
}

} // verus!
