//! Rules of champion movement that do not need storage: path validation,
//! movement budget, chunk arithmetic, and tile-conflict resolution.
use vstd::prelude::*;
use crate::path_text::MoveCoord;
use crate::runtime_types::ChampionSnapshot;
use crate::text::str_eq;

verus! {

/// Why a movement path is refused.
#[derive(Clone, Copy, Debug, PartialEq, Eq, Structural)]
pub enum MovementError {
    /// The path has no step.
    MovementPathEmpty,
    /// The path has more steps than the public limit.
    MovementPathTooLong { path_len: usize, max_len: usize },
    /// A step leaves the session map.
    MovementPathOutOfBounds,
    /// A step is not next to the one before it.
    MovementPathNotAdjacent,
    /// A step crosses impassable terrain.
    MovementPathImpassable,
    /// The path costs more movement than is available.
    MovementPathTooExpensive,
}

/// Two cells touch: they differ and are at most one apart on each axis.
pub open spec fn adjacent(a: MoveCoord, b: MoveCoord) -> bool {
    let dx = a.x as int - b.x as int;
    let dy = a.y as int - b.y as int;
    -1 <= dx <= 1 && -1 <= dy <= 1 && !(dx == 0 && dy == 0)
}

/// Whether two cells touch.
pub fn is_adjacent_to(a: MoveCoord, b: MoveCoord) -> (touch: bool)
    ensures
        touch == adjacent(a, b),
{
    let dx_ok = if a.x >= b.x { a.x - b.x <= 1 } else { b.x - a.x <= 1 };
    let dy_ok = if a.y >= b.y { a.y - b.y <= 1 } else { b.y - a.y <= 1 };
    dx_ok && dy_ok && !(a.x == b.x && a.y == b.y)
}

/// A path must have at least one step and at most `max_steps`.
pub fn validate_path_limit(path: &Vec<MoveCoord>, max_steps: usize) -> (res: Result<(), MovementError>)
    ensures
        path@.len() == 0 ==> res == Err::<(), MovementError>(MovementError::MovementPathEmpty),
        path@.len() > max_steps && path@.len() > 0 ==> res == Err::<(), MovementError>(
            MovementError::MovementPathTooLong { path_len: path@.len() as usize, max_len: max_steps },
        ),
        0 < path@.len() <= max_steps ==> res is Ok,
{
    if path.len() == 0 {
        return Err(MovementError::MovementPathEmpty);
    }
    if path.len() > max_steps {
        return Err(MovementError::MovementPathTooLong { path_len: path.len(), max_len: max_steps });
    }
    Ok(())
}

/// Every step of a path lies on a `map_width` by `map_height` map.
pub fn validate_path_bounds(map_width: u16, map_height: u16, path: &Vec<MoveCoord>) -> (res: Result<(), MovementError>)
    ensures
        res is Ok <==> forall|i: int| 0 <= i < path@.len() ==> (#[trigger] path@[i]).x < map_width && path@[i].y < map_height,
        res is Err ==> res == Err::<(), MovementError>(MovementError::MovementPathOutOfBounds),
{
    let n = path.len();
    let mut i: usize = 0;
    while i < n
        invariant
            n == path@.len(),
            i <= n,
            forall|j: int| 0 <= j < i ==> (#[trigger] path@[j]).x < map_width && path@[j].y < map_height,
        decreases n - i,
    {
        let c = path[i];
        if c.x >= map_width || c.y >= map_height {
            return Err(MovementError::MovementPathOutOfBounds);
        }
        i = i + 1;
    }
    Ok(())
}

/// Each step of a path touches the one before it, the first one the start.
pub open spec fn path_adjacent(start: MoveCoord, path: Seq<MoveCoord>) -> bool {
    forall|i: int| 0 <= i < path.len() ==> #[trigger] step_adjacent(start, path, i)
}

/// Step `i` of a path touches the cell before it.
pub open spec fn step_adjacent(start: MoveCoord, path: Seq<MoveCoord>, i: int) -> bool {
    adjacent(path[i], if i == 0 { start } else { path[i - 1] })
}

/// Every step of a path must touch the cell before it.
pub fn validate_path_adjacency(start_x: u16, start_y: u16, path: &Vec<MoveCoord>) -> (res: Result<(), MovementError>)
    ensures
        res is Ok <==> path_adjacent(MoveCoord { x: start_x, y: start_y }, path@),
        res is Err ==> res == Err::<(), MovementError>(MovementError::MovementPathNotAdjacent),
{
    let ghost start = MoveCoord { x: start_x, y: start_y };
    let mut previous = MoveCoord::new(start_x, start_y);
    let n = path.len();
    let mut i: usize = 0;
    while i < n
        invariant
            n == path@.len(),
            i <= n,
            start == (MoveCoord { x: start_x, y: start_y }),
            previous == (if i == 0 { start } else { path@[i - 1] }),
            forall|j: int| 0 <= j < i ==> #[trigger] step_adjacent(start, path@, j),
        decreases n - i,
    {
        let c = path[i];
        if !is_adjacent_to(c, previous) {
            proof {
                assert(!step_adjacent(start, path@, i as int));
                assert(!path_adjacent(start, path@));
                assert(start == MoveCoord { x: start_x, y: start_y });
            }
            return Err(MovementError::MovementPathNotAdjacent);
        }
        previous = c;
        i = i + 1;
    }
    Ok(())
}

/// `a + b`, or `u16::MAX` when that does not fit.
pub open spec fn sat_add_u16(a: u16, b: u16) -> u16 {
    if a + b <= u16::MAX { (a + b) as u16 } else { u16::MAX }
}

/// Sum of step costs, saturating at `u16::MAX`.
pub open spec fn path_cost(costs: Seq<u8>) -> u16
    decreases costs.len(),
{
    if costs.len() == 0 {
        0
    } else {
        sat_add_u16(path_cost(costs.drop_last()), costs.last() as u16)
    }
}

/// Total movement cost of a path from the cost of each step.
pub fn movement_cost_for_path(costs: &Vec<u8>) -> (total: u16)
    ensures
        total == path_cost(costs@),
{
    let n = costs.len();
    let mut total: u16 = 0;
    let mut i: usize = 0;
    while i < n
        invariant
            n == costs@.len(),
            i <= n,
            total == path_cost(costs@.take(i as int)),
        decreases n - i,
    {
        total = total.saturating_add(costs[i] as u16);
        proof {
            let t = costs@.take(i as int + 1);
            assert(t.drop_last() =~= costs@.take(i as int));
            assert(t.last() == costs@[i as int]);
        }
        i = i + 1;
    }
    assert(costs@.take(n as int) =~= costs@);
    total
}

/// Checks the terrain and the budget of a path, given the map flags and
/// the movement cost of each of its steps: a step whose flags have a bit of
/// `blocking_mask` is impassable; otherwise the total cost (saturating) must
/// not exceed `available`, and is returned.
pub fn validate_path_cost(flags: &Vec<u8>, costs: &Vec<u8>, blocking_mask: u8, available: u16) -> (res: Result<u16, MovementError>)
    requires
        flags@.len() == costs@.len(),
    ensures
        (exists|i: int| 0 <= i < flags@.len() && #[trigger] flags@[i] & blocking_mask != 0) ==> res == Err::<u16, MovementError>(MovementError::MovementPathImpassable),
        !(exists|i: int| 0 <= i < flags@.len() && #[trigger] flags@[i] & blocking_mask != 0) ==> {
            if path_cost(costs@) > available {
                res == Err::<u16, MovementError>(MovementError::MovementPathTooExpensive)
            } else {
                res == Ok::<u16, MovementError>(path_cost(costs@))
            }
        },
{
    let n = flags.len();
    let mut i: usize = 0;
    while i < n
        invariant
            n == flags@.len(),
            i <= n,
            forall|j: int| 0 <= j < i ==> #[trigger] flags@[j] & blocking_mask == 0,
        decreases n - i,
    {
        if flags[i] & blocking_mask != 0 {
            return Err(MovementError::MovementPathImpassable);
        }
        i = i + 1;
    }
    let total = movement_cost_for_path(costs);
    if total > available {
        return Err(MovementError::MovementPathTooExpensive);
    }
    Ok(total)
}

/// Movement a champion has this turn: what is left if it already moved
/// this turn, else its full movement.
pub open spec fn effective_movement_spec(c: ChampionSnapshot, turn_number: u32) -> u16 {
    if c.movement_turn == turn_number { c.movement_remaining } else { c.movement_max }
}

/// Movement a champion has for turn `turn_number`.
pub fn effective_movement(champion: &ChampionSnapshot, turn_number: u32) -> (m: u16)
    ensures
        m == effective_movement_spec(*champion, turn_number),
{
    if champion.movement_turn == turn_number {
        champion.movement_remaining
    } else {
        champion.movement_max
    }
}

/// The chunk index of a coordinate.
pub fn chunk_coord(chunk_size: u8, value: u16) -> (c: u16)
    requires
        chunk_size > 0,
    ensures
        c == value / (chunk_size as u16),
{
    value / (chunk_size as u16)
}

/// Width of chunk column `chunk_x`: the chunk size, or less at the map edge.
pub fn chunk_width(map_width: u16, chunk_size: u8, chunk_x: u16) -> (w: u16)
    ensures
        w == ({
            let origin: int = if chunk_x * chunk_size <= u16::MAX { chunk_x * chunk_size } else { u16::MAX as int };
            let rest: int = if map_width >= origin { map_width - origin } else { 0 };
            if rest <= chunk_size { rest } else { chunk_size as int }
        }),
{
    let size = chunk_size as u16;
    assert((chunk_x as u32) * (size as u32) <= 65535 * 255) by (nonlinear_arith)
        requires
            chunk_x <= 65535,
            size <= 255,
    ;
    let wide: u32 = (chunk_x as u32) * (size as u32);
    let origin: u16 = if wide <= 65535 { wide as u16 } else { 65535 };
    let rest = map_width.saturating_sub(origin);
    if rest <= size { rest } else { size }
}

/// Position of cell `(x, y)` in the row-major blob of its chunk, a chunk of
/// `width` cells per row.
pub open spec fn chunk_cell_index(chunk_size: u8, width: u8, x: u16, y: u16) -> int {
    (y % (chunk_size as u16)) * width + (x % (chunk_size as u16))
}

/// Position of cell `(x, y)` in the row-major blob of its chunk.
pub fn cell_index_in_chunk(chunk_size: u8, width: u8, x: u16, y: u16) -> (index: usize)
    requires
        chunk_size > 0,
    ensures
        index == chunk_cell_index(chunk_size, width, x, y),
{
    let size = chunk_size as u16;
    let local_x = (x % size) as usize;
    let local_y = (y % size) as usize;
    assert(local_y * (width as usize) <= 255 * 255) by (nonlinear_arith)
        requires
            local_y < 256,
            width < 256,
    ;
    local_y * (width as usize) + local_x
}

/// The value stored for cell `(x, y)` in the blob of its chunk, if the blob
/// covers the cell.
pub fn chunk_cell_value(blob: &Vec<u8>, chunk_size: u8, width: u8, x: u16, y: u16) -> (value: Option<u8>)
    requires
        chunk_size > 0,
    ensures
        ({
            let i = chunk_cell_index(chunk_size, width, x, y);
            if i < blob@.len() {
                value == Some(blob@[i])
            } else {
                value is None
            }
        }),
{
    let index = cell_index_in_chunk(chunk_size, width, x, y);
    if index < blob.len() {
        Some(blob[index])
    } else {
        None
    }
}

/// The chunk of a cell.
pub open spec fn chunk_of(c: MoveCoord, chunk_size: u8) -> (u16, u16) {
    ((c.x / (chunk_size as u16)) as u16, (c.y / (chunk_size as u16)) as u16)
}

/// Number of distinct elements of `s`.
pub open spec fn distinct_count<T>(s: Seq<T>) -> nat
    decreases s.len(),
{
    if s.len() == 0 {
        0
    } else {
        distinct_count(s.drop_last()) + if s.drop_last().contains(s.last()) { 0nat } else { 1nat }
    }
}

/// Number of distinct chunks that a path visits, capped at `u32::MAX`.
pub fn chunks_touched(chunk_size: u8, path: &Vec<MoveCoord>) -> (n: u32)
    requires
        chunk_size > 0,
    ensures
        n == (if distinct_count(path@.map_values(|c: MoveCoord| chunk_of(c, chunk_size))) <= u32::MAX {
            distinct_count(path@.map_values(|c: MoveCoord| chunk_of(c, chunk_size))) as u32
        } else {
            u32::MAX
        }),
{
    let ghost chunks = path@.map_values(|c: MoveCoord| chunk_of(c, chunk_size));
    let size = chunk_size as u16;
    let mut seen: Vec<(u16, u16)> = Vec::new();
    let n = path.len();
    let mut i: usize = 0;
    while i < n
        invariant
            n == path@.len(),
            size == chunk_size as u16,
            chunk_size > 0,
            chunks == path@.map_values(|c: MoveCoord| chunk_of(c, chunk_size)),
            i <= n,
            seen@.len() == distinct_count(chunks.take(i as int)),
            forall|k: int| 0 <= k < seen@.len() ==> chunks.take(i as int).contains(#[trigger] seen@[k]),
            forall|k: int| 0 <= k < i ==> seen@.contains(#[trigger] chunks[k]),
        decreases n - i,
    {
        let c = path[i];
        let key = (c.x / size, c.y / size);
        proof {
            assert(key == chunks[i as int]);
        }
        let mut found = false;
        let m = seen.len();
        let mut j: usize = 0;
        while j < m
            invariant
                m == seen@.len(),
                j <= m,
                found == exists|k: int| 0 <= k < j && seen@[k] == key,
            decreases m - j,
        {
            if seen[j].0 == key.0 && seen[j].1 == key.1 {
                found = true;
            }
            j = j + 1;
        }
        proof {
            let t = chunks.take(i as int + 1);
            assert(t.drop_last() =~= chunks.take(i as int));
            assert(t.last() == key);
            if found {
                let k = choose|k: int| 0 <= k < m && seen@[k] == key;
                assert(chunks.take(i as int).contains(seen@[k]));
            } else {
                if chunks.take(i as int).contains(key) {
                    let k = choose|k: int| 0 <= k < i && #[trigger] chunks.take(i as int)[k] == key;
                    assert(chunks[k] == key);
                    assert(seen@.contains(chunks[k]));
                }
            }
        }
        let ghost seen0 = seen@;
        if !found {
            seen.push(key);
        }
        proof {
            assert forall|k: int| 0 <= k < seen@.len() implies chunks.take(i as int + 1).contains(#[trigger] seen@[k]) by {
                if k < m {
                    assert(chunks.take(i as int).contains(seen@[k]));
                    let a = choose|a: int| 0 <= a < i && chunks.take(i as int)[a] == seen@[k];
                    assert(chunks.take(i as int + 1)[a] == seen@[k]);
                } else {
                    assert(chunks.take(i as int + 1)[i as int] == key);
                }
            }
            assert forall|k: int| 0 <= k < i + 1 implies seen@.contains(#[trigger] chunks[k]) by {
                if k < i {
                    assert(seen0.contains(chunks[k]));
                    let a = choose|a: int| 0 <= a < m && seen0[a] == chunks[k];
                    assert(seen@[a] == chunks[k]);
                } else if found {
                    let a = choose|a: int| 0 <= a < m && seen@[a] == key;
                    assert(seen@[a] == chunks[k]);
                } else {
                    assert(seen@[m as int] == chunks[k]);
                }
            }
        }
        i = i + 1;
    }
    proof {
        assert(chunks.take(n as int) =~= chunks);
    }
    if seen.len() <= 4294967295 {
        seen.len() as u32
    } else {
        4294967295
    }
}

/// Why a movement stops at a scenario object of a given kind.
pub open spec fn stop_reason_spec(slug: Seq<char>) -> Seq<char> {
    if slug == "gold-mine"@ || slug == "crystal-mine"@ {
        "mine"@
    } else if slug == "misery-beacon"@ {
        "central_objective"@
    } else if slug == "mudhook-den"@ {
        "external_dwelling"@
    } else {
        "world_object"@
    }
}

/// The stop reason reported for a scenario object on a path.
pub fn scenario_object_stop_reason(object_slug: &str) -> (reason: &'static str)
    ensures
        reason@ == stop_reason_spec(object_slug@),
{
    if str_eq(object_slug, "gold-mine") || str_eq(object_slug, "crystal-mine") {
        "mine"
    } else if str_eq(object_slug, "misery-beacon") {
        "central_objective"
    } else if str_eq(object_slug, "mudhook-den") {
        "external_dwelling"
    } else {
        "world_object"
    }
}

/// One champion's next step in a movement micro-step.
#[derive(Clone, Copy, Debug, PartialEq, Eq, Structural)]
pub struct MoveCandidate {
    pub pending_index: usize,
    pub from: MoveCoord,
    pub to: MoveCoord,
    pub movement_cost: u16,
    pub remaining_before: u16,
    pub path_distance: u16,
    pub tie_break: u64,
}

/// `a` wins a tile over `b`: more movement left, then a shorter path so
/// far, then a higher tie break, then an earlier pending index.
pub open spec fn beats(a: MoveCandidate, b: MoveCandidate) -> bool {
    a.remaining_before > b.remaining_before || (a.remaining_before == b.remaining_before && (
    a.path_distance < b.path_distance || (a.path_distance == b.path_distance && (a.tie_break
        > b.tie_break || (a.tie_break == b.tie_break && a.pending_index < b.pending_index)))))
}

/// Whether `a` wins a tile over `b`.
fn beats_exec(a: &MoveCandidate, b: &MoveCandidate) -> (w: bool)
    ensures
        w == beats(*a, *b),
{
    a.remaining_before > b.remaining_before || (a.remaining_before == b.remaining_before && (
    a.path_distance < b.path_distance || (a.path_distance == b.path_distance && (a.tie_break
        > b.tie_break || (a.tie_break == b.tie_break && a.pending_index < b.pending_index)))))
}

/// The candidate that keeps a contested tile: the first one that no other
/// candidate beats (every earlier candidate is beaten by it).
pub fn tile_conflict_winner(group: &Vec<MoveCandidate>) -> (winner: MoveCandidate)
    requires
        group@.len() > 0,
    ensures
        exists|w: int|
            0 <= w < group@.len() && group@[w] == winner && (forall|j: int| 0 <= j < group@.len() ==> !beats(#[trigger] group@[j], group@[w]))
                && (forall|j: int| 0 <= j < w ==> beats(group@[w], #[trigger] group@[j])),
{
    let n = group.len();
    let mut best: usize = 0;
    let mut i: usize = 1;
    while i < n
        invariant
            n == group@.len(),
            1 <= i <= n,
            best < i,
            forall|j: int| 0 <= j < i ==> !beats(#[trigger] group@[j], group@[best as int]),
            forall|j: int| 0 <= j < best ==> beats(group@[best as int], #[trigger] group@[j]),
        decreases n - i,
    {
        if beats_exec(&group[i], &group[best]) {
            proof {
                assert forall|j: int| 0 <= j < i implies beats(group@[i as int], #[trigger] group@[j]) by {
                    assert(!beats(group@[j], group@[best as int]));
                }
                assert forall|j: int| 0 <= j <= i implies !beats(#[trigger] group@[j], group@[i as int]) by {
                    if j < i {
                        assert(beats(group@[i as int], group@[j]));
                    }
                }
            }
            best = i;
        }
        i = i + 1;
    }
    group[best]
}

} // verus!
