//! The map chunks of a viewport that a participant pages through, each with
//! what the participant has discovered and sees of it.
use vstd::prelude::*;
use crate::dup::{dup_vec, Duplicate};
use crate::listing::{
    grid_sort, grid_sorted, lemma_sorted_entries_from, page_end, page_items, page_of, page_window,
    GridEntry, GridKey,
};
use crate::movement_rules::sat_add_u16;
use crate::object_view::Viewport;
use crate::render_rules::chunk_intersects_viewport;

verus! {

/// A chunk of the session's map.
pub struct MapChunkRow {
    pub chunk_id: String,
    pub chunk_x: u16,
    pub chunk_y: u16,
    pub width: u8,
    pub height: u8,
    pub terrain_blob: Vec<u8>,
    pub movement_blob: Vec<u8>,
    pub flags_blob: Vec<u8>,
}

/// What a participant has discovered and sees of a chunk.
pub struct VisibilityRow {
    pub chunk_x: u16,
    pub chunk_y: u16,
    pub discovered_blob: Vec<u8>,
    pub visible_blob: Vec<u8>,
}

/// A chunk as the participant is shown it.
pub struct MapChunkView {
    pub chunk_id: String,
    pub chunk_x: u16,
    pub chunk_y: u16,
    pub width: u16,
    pub height: u16,
    pub terrain_blob: Vec<u8>,
    pub movement_blob: Vec<u8>,
    pub flags_blob: Vec<u8>,
    pub discovered_blob: Vec<u8>,
    pub visible_blob: Vec<u8>,
}

/// A chunk's texts and bytes as sequences.
pub struct MapChunkModel {
    pub chunk_id: Seq<char>,
    pub chunk_x: u16,
    pub chunk_y: u16,
    pub width: u16,
    pub height: u16,
    pub terrain_blob: Seq<u8>,
    pub movement_blob: Seq<u8>,
    pub flags_blob: Seq<u8>,
    pub discovered_blob: Seq<u8>,
    pub visible_blob: Seq<u8>,
}

impl View for MapChunkView {
    type V = MapChunkModel;

    open spec fn view(&self) -> MapChunkModel {
        MapChunkModel {
            chunk_id: self.chunk_id@,
            chunk_x: self.chunk_x,
            chunk_y: self.chunk_y,
            width: self.width,
            height: self.height,
            terrain_blob: self.terrain_blob@,
            movement_blob: self.movement_blob@,
            flags_blob: self.flags_blob@,
            discovered_blob: self.discovered_blob@,
            visible_blob: self.visible_blob@,
        }
    }
}

/// Which chunk, with which visibility record, a listed entry shows.
#[derive(Clone, Copy)]
pub struct ChunkSlot {
    pub chunk_x: u16,
    pub chunk_y: u16,
    pub chunk_index: usize,
    pub visibility_index: usize,
}

impl Duplicate for ChunkSlot {
    fn duplicate(&self) -> (copy: Self) {
        *self
    }
}

/// Chunks are listed by row, then column; chunks at the same place keep
/// their order.
impl GridEntry for ChunkSlot {
    open spec fn grid_key(&self) -> GridKey {
        GridKey { y: self.chunk_y, x: self.chunk_x, kind: Seq::empty(), id: Seq::empty() }
    }

    fn grid_position(&self) -> (pos: (u16, u16)) {
        (self.chunk_y, self.chunk_x)
    }

    fn grid_kind(&self) -> (kind: &str) {
        proof {
            reveal_strlit("");
        }
        ""
    }

    fn grid_id(&self) -> (id: &str) {
        proof {
            reveal_strlit("");
        }
        ""
    }
}

fn copy_bytes(v: &Vec<u8>) -> (copy: Vec<u8>)
    ensures
        copy@ == v@,
{
    dup_vec(v)
}

/// The index of the last visibility record of the chunk at `(x, y)`, or `-1`.
pub open spec fn last_visibility(rows: Seq<VisibilityRow>, x: u16, y: u16) -> int
    decreases rows.len(),
{
    if rows.len() == 0 {
        -1
    } else if rows.last().chunk_x == x && rows.last().chunk_y == y {
        rows.len() - 1
    } else {
        last_visibility(rows.drop_last(), x, y)
    }
}

proof fn lemma_last_visibility_bounds(rows: Seq<VisibilityRow>, x: u16, y: u16)
    ensures
        -1 <= last_visibility(rows, x, y) < rows.len(),
    decreases rows.len(),
{
    if rows.len() > 0 {
        lemma_last_visibility_bounds(rows.drop_last(), x, y);
    }
}

fn find_last_visibility(rows: &Vec<VisibilityRow>, x: u16, y: u16) -> (found: Option<usize>)
    ensures
        match found {
            Some(i) => i < rows@.len() && i as int == last_visibility(rows@, x, y),
            None => last_visibility(rows@, x, y) == -1,
        },
{
    let mut p: usize = rows.len();
    proof {
        assert(rows@.take(rows@.len() as int) =~= rows@);
    }
    while p > 0
        invariant
            p <= rows@.len(),
            last_visibility(rows@, x, y) == last_visibility(rows@.take(p as int), x, y),
        decreases p,
    {
        proof {
            assert(rows@.take(p as int).last() == rows@[p - 1]);
            assert(rows@.take(p as int).drop_last() =~= rows@.take(p - 1));
        }
        if rows[p - 1].chunk_x == x && rows[p - 1].chunk_y == y {
            return Some(p - 1);
        }
        p = p - 1;
    }
    None
}

/// Whether the chunk lies (partly) in the viewport, for chunks of
/// `chunk_size` cells.
pub open spec fn chunk_in_view(chunk_size: u8, viewport: Viewport, c: MapChunkRow) -> bool {
    let min_x = (c.chunk_x * chunk_size) as u16;
    let min_y = (c.chunk_y * chunk_size) as u16;
    &&& viewport.x < sat_add_u16(min_x, c.width as u16)
    &&& sat_add_u16(viewport.x, viewport.width) > min_x
    &&& viewport.y < sat_add_u16(min_y, c.height as u16)
    &&& sat_add_u16(viewport.y, viewport.height) > min_y
}

/// What the participant is shown of chunk `c` with visibility record `v`.
pub open spec fn chunk_model(c: MapChunkRow, v: VisibilityRow) -> MapChunkModel {
    MapChunkModel {
        chunk_id: c.chunk_id@,
        chunk_x: c.chunk_x,
        chunk_y: c.chunk_y,
        width: c.width as u16,
        height: c.height as u16,
        terrain_blob: c.terrain_blob@,
        movement_blob: c.movement_blob@,
        flags_blob: c.flags_blob@,
        discovered_blob: v.discovered_blob@,
        visible_blob: v.visible_blob@,
    }
}

/// The chunks in the viewport that the participant has a visibility record
/// of (its last one), in chunk order, each with the place of its record.
pub open spec fn chunks_shown(chunks: Seq<MapChunkRow>, rows: Seq<VisibilityRow>, chunk_size: u8, viewport: Viewport) -> Seq<ChunkSlot>
    decreases chunks.len(),
{
    if chunks.len() == 0 {
        Seq::empty()
    } else {
        let before = chunks_shown(chunks.drop_last(), rows, chunk_size, viewport);
        let c = chunks.last();
        let v = last_visibility(rows, c.chunk_x, c.chunk_y);
        if chunk_in_view(chunk_size, viewport, c) && v >= 0 {
            before.push(ChunkSlot { chunk_x: c.chunk_x, chunk_y: c.chunk_y, chunk_index: (chunks.len() - 1) as usize, visibility_index: v as usize })
        } else {
            before
        }
    }
}

proof fn lemma_chunks_shown_in_range(chunks: Seq<MapChunkRow>, rows: Seq<VisibilityRow>, chunk_size: u8, viewport: Viewport)
    ensures
        forall|k: int| 0 <= k < chunks_shown(chunks, rows, chunk_size, viewport).len() ==> {
            let slot = #[trigger] chunks_shown(chunks, rows, chunk_size, viewport)[k];
            &&& slot.chunk_index < chunks.len()
            &&& slot.visibility_index < rows.len()
        },
    decreases chunks.len(),
{
    if chunks.len() > 0 {
        lemma_chunks_shown_in_range(chunks.drop_last(), rows, chunk_size, viewport);
        let c = chunks.last();
        lemma_last_visibility_bounds(rows, c.chunk_x, c.chunk_y);
        let before = chunks_shown(chunks.drop_last(), rows, chunk_size, viewport);
        let all = chunks_shown(chunks, rows, chunk_size, viewport);
        assert forall|k: int| 0 <= k < all.len() implies {
            let slot = #[trigger] all[k];
            &&& slot.chunk_index < chunks.len()
            &&& slot.visibility_index < rows.len()
        } by {
            if k < before.len() {
                assert(all[k] == before[k]);
            }
        }
    }
}

/// A page of map chunks.
pub struct MapChunkPage {
    pub chunks: Vec<MapChunkView>,
    pub next_cursor: Option<u32>,
    pub has_more: bool,
}

/// The page, starting at the cursor (0 when none) and at most `limit` long,
/// of the chunks in the viewport that the participant has a visibility
/// record of, ordered by row and column.
pub fn visible_map_chunks(
    chunks: &Vec<MapChunkRow>,
    visibility: &Vec<VisibilityRow>,
    chunk_size: u8,
    viewport: Viewport,
    cursor: Option<u32>,
    limit: u32,
) -> (page: MapChunkPage)
    requires
        forall|i: int| 0 <= i < chunks@.len() ==> #[trigger] chunks@[i].chunk_x * chunk_size <= u16::MAX
            && chunks@[i].chunk_y * chunk_size <= u16::MAX,
    ensures
        ({
            let listed = grid_sorted(chunks_shown(chunks@, visibility@, chunk_size, viewport));
            let start: nat = match cursor {
                Some(c) => c as nat,
                None => 0nat,
            };
            let end = page_end(start, limit as nat, listed.len());
            let slots = page_items(listed, start, end);
            &&& page.chunks@.len() == slots.len()
            &&& forall|k: int| 0 <= k < slots.len() ==> (#[trigger] page.chunks@[k])@ == chunk_model(
                chunks@[slots[k].chunk_index as int],
                visibility@[slots[k].visibility_index as int],
            )
            &&& page.has_more == (end < listed.len())
            &&& page.next_cursor == if page.has_more { Some(end as u32) } else { None }
        }),
{
    let mut shown: Vec<ChunkSlot> = Vec::new();
    let mut i: usize = 0;
    while i < chunks.len()
        invariant
            i <= chunks@.len(),
            shown@ == chunks_shown(chunks@.take(i as int), visibility@, chunk_size, viewport),
            forall|k: int| 0 <= k < chunks@.len() ==> #[trigger] chunks@[k].chunk_x * chunk_size <= u16::MAX
                && chunks@[k].chunk_y * chunk_size <= u16::MAX,
        decreases chunks@.len() - i,
    {
        proof {
            assert(chunks@.take(i + 1).drop_last() =~= chunks@.take(i as int));
            assert(chunks@.take(i + 1).last() == chunks@[i as int]);
        }
        let c = &chunks[i];
        let in_view = chunk_intersects_viewport(
            chunk_size,
            c.chunk_x,
            c.chunk_y,
            c.width,
            c.height,
            viewport.x,
            viewport.y,
            viewport.width,
            viewport.height,
        );
        if in_view {
            if let Some(v) = find_last_visibility(visibility, c.chunk_x, c.chunk_y) {
                shown.push(ChunkSlot { chunk_x: c.chunk_x, chunk_y: c.chunk_y, chunk_index: i, visibility_index: v });
            }
        }
        i = i + 1;
    }
    proof {
        assert(chunks@.take(chunks@.len() as int) =~= chunks@);
        lemma_chunks_shown_in_range(chunks@, visibility@, chunk_size, viewport);
        lemma_sorted_entries_from(shown@);
    }
    let listed = grid_sort(&shown);
    let w = page_window(cursor, limit, listed.len());
    let slots = page_of(&listed, &w);
    let ghost slot_seq = slots@;
    proof {
        assert forall|k: int| 0 <= k < slot_seq.len() implies (#[trigger] slot_seq[k]).chunk_index < chunks@.len()
            && slot_seq[k].visibility_index < visibility@.len() by {
            assert(slot_seq[k] == listed@[w.start + k]);
            assert(shown@.contains(listed@[w.start + k]));
        }
    }
    let mut out: Vec<MapChunkView> = Vec::new();
    let mut k: usize = 0;
    while k < slots.len()
        invariant
            slots@ == slot_seq,
            k <= slot_seq.len(),
            out@.len() == k,
            forall|j: int| 0 <= j < slot_seq.len() ==> (#[trigger] slot_seq[j]).chunk_index < chunks@.len()
                && slot_seq[j].visibility_index < visibility@.len(),
            forall|j: int| 0 <= j < k ==> (#[trigger] out@[j])@ == chunk_model(
                chunks@[slot_seq[j].chunk_index as int],
                visibility@[slot_seq[j].visibility_index as int],
            ),
        decreases slot_seq.len() - k,
    {
        let slot = slots[k];
        let c = &chunks[slot.chunk_index];
        let row = &visibility[slot.visibility_index];
        out.push(MapChunkView {
            chunk_id: c.chunk_id.clone(),
            chunk_x: c.chunk_x,
            chunk_y: c.chunk_y,
            width: c.width as u16,
            height: c.height as u16,
            terrain_blob: copy_bytes(&c.terrain_blob),
            movement_blob: copy_bytes(&c.movement_blob),
            flags_blob: copy_bytes(&c.flags_blob),
            discovered_blob: copy_bytes(&row.discovered_blob),
            visible_blob: copy_bytes(&row.visible_blob),
        });
        k = k + 1;
    }
    MapChunkPage { chunks: out, next_cursor: w.next_cursor, has_more: w.has_more }
}

} // verus!
