//! The cells a champion sees: the diamond of cells within its vision
//! radius (in steps along the axes), clipped to the map.
use vstd::prelude::*;
use crate::path_text::MoveCoord;

verus! {

/// `|v|`.
pub open spec fn abs(v: int) -> int {
    if v < 0 { -v } else { v }
}

/// The cell at offset `(dx, dy)` from `(cx, cy)` is seen: within the radius
/// and on the `w` by `h` map.
pub open spec fn seen(cx: int, cy: int, r: int, dx: int, dy: int, w: int, h: int) -> bool {
    &&& abs(dx) + abs(dy) <= r
    &&& 0 <= cx + dx < w
    &&& 0 <= cy + dy < h
}

/// The seen cells of row `dy`, for the offsets `dx` from `dx` to `r`.
pub open spec fn vision_row(cx: int, cy: int, r: int, dy: int, dx: int, w: int, h: int) -> Seq<MoveCoord>
    decreases r - dx + 1,
{
    if dx > r {
        Seq::empty()
    } else {
        let rest = vision_row(cx, cy, r, dy, dx + 1, w, h);
        if seen(cx, cy, r, dx, dy, w, h) {
            seq![MoveCoord { x: (cx + dx) as u16, y: (cy + dy) as u16 }] + rest
        } else {
            rest
        }
    }
}

/// The seen cells of the rows from `dy` to `r`, row by row.
pub open spec fn vision_rows(cx: int, cy: int, r: int, dy: int, w: int, h: int) -> Seq<MoveCoord>
    decreases r - dy + 1,
{
    if dy > r {
        Seq::empty()
    } else {
        vision_row(cx, cy, r, dy, -r, w, h) + vision_rows(cx, cy, r, dy + 1, w, h)
    }
}

/// The cells a champion at `(center_x, center_y)` with vision `radius` sees
/// on a `map_width` by `map_height` map, row by row from the top and left
/// to right within a row.
pub fn vision_cells(center_x: u16, center_y: u16, radius: u16, map_width: u16, map_height: u16) -> (cells: Vec<
    MoveCoord,
>)
    ensures
        cells@ == vision_rows(center_x as int, center_y as int, radius as int, -(radius as int), map_width as int, map_height as int),
{
    let ghost cx = center_x as int;
    let ghost cy = center_y as int;
    let ghost r = radius as int;
    let ghost w = map_width as int;
    let ghost h = map_height as int;
    let ghost total = vision_rows(cx, cy, r, -r, w, h);
    let rr = radius as i64;
    let mut out: Vec<MoveCoord> = Vec::new();
    let mut dy: i64 = -rr;
    proof {
        assert(out@ + vision_rows(cx, cy, r, dy as int, w, h) =~= total);
    }
    while dy <= rr
        invariant
            rr == r,
            0 <= r <= 65535,
            cx == center_x as int,
            cy == center_y as int,
            w == map_width as int,
            h == map_height as int,
            total == vision_rows(cx, cy, r, -r, w, h),
            -r <= dy <= r + 1,
            out@ + vision_rows(cx, cy, r, dy as int, w, h) == total,
        decreases r + 1 - dy,
    {
        proof {
            assert(vision_rows(cx, cy, r, dy as int, w, h) == vision_row(cx, cy, r, dy as int, -r, w, h)
                + vision_rows(cx, cy, r, dy + 1, w, h));
        }
        let ghost row_start = out@;
        let mut dx: i64 = -rr;
        proof {
            assert(out@ + vision_row(cx, cy, r, dy as int, dx as int, w, h) =~= row_start + vision_row(cx, cy, r, dy as int, -r, w, h));
        }
        while dx <= rr
            invariant
                rr == r,
                0 <= r <= 65535,
                cx == center_x as int,
                cy == center_y as int,
                w == map_width as int,
                h == map_height as int,
                -r <= dy <= r,
                -r <= dx <= r + 1,
                out@ + vision_row(cx, cy, r, dy as int, dx as int, w, h) == row_start + vision_row(
                    cx,
                    cy,
                    r,
                    dy as int,
                    -r,
                    w,
                    h,
                ),
            decreases r + 1 - dx,
        {
            let ghost before = out@;
            let adx: i64 = if dx < 0 { -dx } else { dx };
            let ady: i64 = if dy < 0 { -dy } else { dy };
            let x: i64 = center_x as i64 + dx;
            let y: i64 = center_y as i64 + dy;
            if adx + ady <= rr && 0 <= x && x < map_width as i64 && 0 <= y && y < map_height as i64 {
                out.push(MoveCoord { x: x as u16, y: y as u16 });
                proof {
                    assert(seen(cx, cy, r, dx as int, dy as int, w, h));
                    assert(out@ + vision_row(cx, cy, r, dy as int, dx + 1, w, h) =~= before + vision_row(
                        cx,
                        cy,
                        r,
                        dy as int,
                        dx as int,
                        w,
                        h,
                    ));
                }
            } else {
                proof {
                    assert(!seen(cx, cy, r, dx as int, dy as int, w, h));
                }
            }
            dx = dx + 1;
        }
        proof {
            assert(vision_row(cx, cy, r, dy as int, dx as int, w, h) == Seq::<MoveCoord>::empty());
            assert(out@ =~= row_start + vision_row(cx, cy, r, dy as int, -r, w, h));
            assert(out@ + vision_rows(cx, cy, r, dy + 1, w, h) =~= row_start + vision_rows(cx, cy, r, dy as int, w, h));
        }
        dy = dy + 1;
    }
    proof {
        assert(vision_rows(cx, cy, r, dy as int, w, h) == Seq::<MoveCoord>::empty());
        assert(out@ =~= total);
    }
    out
}


/// Whether cell `c` is seen from `(cx, cy)` with radius `r` on a `w` by `h`
/// map.
pub open spec fn sees(cx: int, cy: int, r: int, w: int, h: int, c: MoveCoord) -> bool {
    &&& abs(c.x - cx) + abs(c.y - cy) <= r
    &&& c.x < w
    &&& c.y < h
}

proof fn lemma_vision_row_seen(cx: int, cy: int, r: int, dy: int, dx: int, w: int, h: int)
    requires
        w <= 65536,
        h <= 65536,
    ensures
        forall|i: int| 0 <= i < vision_row(cx, cy, r, dy, dx, w, h).len() ==> sees(
            cx,
            cy,
            r,
            w,
            h,
            #[trigger] vision_row(cx, cy, r, dy, dx, w, h)[i],
        ),
    decreases r - dx + 1,
{
    if dx <= r {
        lemma_vision_row_seen(cx, cy, r, dy, dx + 1, w, h);
        let rest = vision_row(cx, cy, r, dy, dx + 1, w, h);
        if seen(cx, cy, r, dx, dy, w, h) {
            let c = MoveCoord { x: (cx + dx) as u16, y: (cy + dy) as u16 };
            let row = seq![c] + rest;
            assert(c.x == cx + dx && c.y == cy + dy);
            assert forall|i: int| 0 <= i < row.len() implies sees(cx, cy, r, w, h, #[trigger] row[i]) by {
                if i > 0 {
                    assert(row[i] == rest[i - 1]);
                }
            }
        }
    }
}

proof fn lemma_vision_rows_seen(cx: int, cy: int, r: int, dy: int, w: int, h: int)
    requires
        w <= 65536,
        h <= 65536,
    ensures
        forall|i: int| 0 <= i < vision_rows(cx, cy, r, dy, w, h).len() ==> sees(
            cx,
            cy,
            r,
            w,
            h,
            #[trigger] vision_rows(cx, cy, r, dy, w, h)[i],
        ),
    decreases r - dy + 1,
{
    if dy <= r {
        lemma_vision_row_seen(cx, cy, r, dy, -r, w, h);
        lemma_vision_rows_seen(cx, cy, r, dy + 1, w, h);
        let row = vision_row(cx, cy, r, dy, -r, w, h);
        let rest = vision_rows(cx, cy, r, dy + 1, w, h);
        let all = row + rest;
        assert forall|i: int| 0 <= i < all.len() implies sees(cx, cy, r, w, h, #[trigger] all[i]) by {
            if i < row.len() {
                assert(all[i] == row[i]);
            } else {
                assert(all[i] == rest[i - row.len()]);
            }
        }
    }
}

/// Law: every cell a champion sees lies on the map, within its vision
/// radius of the champion.
pub proof fn lemma_vision_cells_seen(center_x: u16, center_y: u16, radius: u16, map_width: u16, map_height: u16)
    ensures
        ({
            let cells = vision_rows(center_x as int, center_y as int, radius as int, -(radius as int), map_width as int, map_height as int);
            forall|i: int| 0 <= i < cells.len() ==> sees(
                center_x as int,
                center_y as int,
                radius as int,
                map_width as int,
                map_height as int,
                #[trigger] cells[i],
            )
        }),
{
    lemma_vision_rows_seen(center_x as int, center_y as int, radius as int, -(radius as int), map_width as int, map_height as int);
}

} // verus!
