//! Who gives way when champions move in the same micro-step: several
//! champions entering one tile, and two champions swapping tiles.
use vstd::prelude::*;
use crate::movement_rules::{beats, MoveCandidate};
use crate::path_text::MoveCoord;

verus! {

/// Candidate `i` loses its target tile: another candidate entering the same
/// tile beats it.
pub open spec fn loses_tile(s: Seq<MoveCandidate>, i: int) -> bool {
    exists|j: int| 0 <= j < s.len() && #[trigger] s[j].to == s[i].to && beats(s[j], s[i])
}

/// Tile `a` comes before tile `b`: by column, then by row.
pub open spec fn tile_lt(a: MoveCoord, b: MoveCoord) -> bool {
    a.x < b.x || (a.x == b.x && a.y < b.y)
}

/// Candidate `u` is stopped before candidate `v`: by target tile, then by
/// position among the candidates.
pub open spec fn stop_before(s: Seq<MoveCandidate>, u: int, v: int) -> bool {
    tile_lt(s[u].to, s[v].to) || (s[u].to == s[v].to && u < v)
}

/// Whether tile `a` comes before tile `b`.
fn tile_before(a: MoveCoord, b: MoveCoord) -> (before: bool)
    ensures
        before == tile_lt(a, b),
{
    a.x < b.x || (a.x == b.x && a.y < b.y)
}

/// Whether candidate `i` loses its tile.
fn loses_tile_exec(s: &Vec<MoveCandidate>, i: usize) -> (lost: bool)
    requires
        i < s@.len(),
    ensures
        lost == loses_tile(s@, i as int),
{
    let n = s.len();
    let mut j: usize = 0;
    while j < n
        invariant
            n == s@.len(),
            i < n,
            j <= n,
            forall|k: int| 0 <= k < j ==> !(#[trigger] s@[k].to == s@[i as int].to && beats(s@[k], s@[i as int])),
        decreases n - j,
    {
        let a = s[j];
        let b = s[i];
        if a.to == b.to && (a.remaining_before > b.remaining_before || (a.remaining_before == b.remaining_before && (
        a.path_distance < b.path_distance || (a.path_distance == b.path_distance && (a.tie_break > b.tie_break || (
        a.tie_break == b.tie_break && a.pending_index < b.pending_index)))))) {
            proof {
                assert(s@[j as int].to == s@[i as int].to && beats(s@[j as int], s@[i as int]));
            }
            return true;
        }
        j = j + 1;
    }
    false
}

/// The candidates that lose a contested tile, as positions among `active`,
/// in the order they are stopped: by target tile, then by position. A
/// candidate loses when another candidate for the same tile beats it; with
/// distinct pending indexes that leaves exactly one winner per tile.
pub fn tile_conflict_losers(active: &Vec<MoveCandidate>) -> (losers: Vec<usize>)
    ensures
        forall|k: int| 0 <= k < losers@.len() ==> #[trigger] losers@[k] < active@.len() && loses_tile(active@, losers@[k] as int),
        forall|i: int| 0 <= i < active@.len() && loses_tile(active@, i) ==> losers@.contains(i as usize),
        forall|a: int, b: int| 0 <= a < b < losers@.len() ==> stop_before(active@, #[trigger] losers@[a] as int, #[trigger] losers@[b] as int),
{
    let n = active.len();
    let mut out: Vec<usize> = Vec::new();
    let mut i: usize = 0;
    while i < n
        invariant
            n == active@.len(),
            i <= n,
            forall|k: int| 0 <= k < out@.len() ==> #[trigger] out@[k] < i && loses_tile(active@, out@[k] as int),
            forall|j: int| 0 <= j < i && loses_tile(active@, j) ==> out@.contains(j as usize),
            forall|a: int, b: int| 0 <= a < b < out@.len() ==> stop_before(active@, #[trigger] out@[a] as int, #[trigger] out@[b] as int),
        decreases n - i,
    {
        if loses_tile_exec(active, i) {
            let m = out.len();
            let mut pos: usize = 0;
            while pos < m && !tile_before(active[i].to, active[out[pos]].to)
                invariant
                    m == out@.len(),
                    n == active@.len(),
                    i < n,
                    pos <= m,
                    forall|k: int| 0 <= k < m ==> #[trigger] out@[k] < i,
                    forall|k: int| 0 <= k < pos ==> stop_before(active@, #[trigger] out@[k] as int, i as int),
                decreases m - pos,
            {
                proof {
                    let v = out@[pos as int] as int;
                    assert(!tile_lt(active@[i as int].to, active@[v].to));
                    assert(v < i);
                }
                pos = pos + 1;
            }
            let ghost o0 = out@;
            out.insert(pos, i);
            proof {
                let o1 = out@;
                assert(o1 =~= o0.insert(pos as int, i));
                if pos < m {
                    let v = o0[pos as int] as int;
                    assert(tile_lt(active@[i as int].to, active@[v].to));
                }
                assert forall|a: int, b: int| 0 <= a < b < o1.len() implies stop_before(active@, #[trigger] o1[a] as int, #[trigger] o1[b] as int) by {
                    if b < pos {
                        assert(o1[a] == o0[a] && o1[b] == o0[b]);
                    } else if b == pos {
                        assert(o1[a] == o0[a] && o1[b] == i);
                    } else if a < pos {
                        assert(o1[a] == o0[a] && o1[b] == o0[b - 1]);
                        // o0[a] <= i < o0[pos] <= o0[b - 1]
                        assert(stop_before(active@, o0[a] as int, i as int));
                        let p = o0[pos as int] as int;
                        let q = o0[b - 1] as int;
                        assert(tile_lt(active@[i as int].to, active@[p].to));
                        if b - 1 > pos {
                            assert(stop_before(active@, p, q));
                        }
                    } else if a == pos {
                        assert(o1[a] == i && o1[b] == o0[b - 1]);
                        let p = o0[pos as int] as int;
                        let q = o0[b - 1] as int;
                        assert(tile_lt(active@[i as int].to, active@[p].to));
                        if b - 1 > pos {
                            assert(stop_before(active@, p, q));
                        }
                    } else {
                        assert(o1[a] == o0[a - 1] && o1[b] == o0[b - 1]);
                    }
                }
                assert forall|j: int| 0 <= j < i + 1 && loses_tile(active@, j) implies o1.contains(j as usize) by {
                    if j == i {
                        assert(o1[pos as int] == i);
                    } else {
                        assert(o0.contains(j as usize));
                        let k = choose|k: int| 0 <= k < o0.len() && o0[k] == j as usize;
                        if k < pos {
                            assert(o1[k] == o0[k]);
                        } else {
                            assert(o1[k + 1] == o0[k]);
                        }
                    }
                }
                assert forall|k: int| 0 <= k < o1.len() implies #[trigger] o1[k] < i + 1 && loses_tile(active@, o1[k] as int) by {
                    if k < pos {
                        assert(o1[k] == o0[k]);
                    } else if k > pos {
                        assert(o1[k] == o0[k - 1]);
                    }
                }
            }
        }
        i = i + 1;
    }
    out
}


/// Candidates `a` and `b` would swap tiles.
pub open spec fn swaps(a: MoveCandidate, b: MoveCandidate) -> bool {
    a.to == b.from && b.to == a.from
}

/// The crossing pairs found by scanning the candidate pairs `(l, r)`,
/// `l < r`, in order from `(l, r)` on, where a candidate already paired (in
/// `stopped`) takes part in no further pair.
pub open spec fn crossings(s: Seq<MoveCandidate>, l: int, r: int, stopped: Set<int>) -> Seq<(int, int)>
    decreases s.len() - l, s.len() - r,
{
    if l < 0 || l >= s.len() {
        Seq::empty()
    } else if r >= s.len() || r < 0 {
        crossings(s, l + 1, l + 2, stopped)
    } else if !stopped.contains(l) && !stopped.contains(r) && swaps(s[l], s[r]) {
        seq![(l, r)] + crossings(s, l, r + 1, stopped.insert(l).insert(r))
    } else {
        crossings(s, l, r + 1, stopped)
    }
}

/// Position pairs by their integer values.
pub open spec fn pair_view(p: Seq<(usize, usize)>) -> Seq<(int, int)> {
    p.map_values(|q: (usize, usize)| (q.0 as int, q.1 as int))
}

/// The pairs of candidates that would swap tiles, as positions among
/// `active`, scanning the pairs in order; a candidate takes part in at most
/// one pair.
pub fn crossing_conflict_pairs(active: &Vec<MoveCandidate>) -> (pairs: Vec<(usize, usize)>)
    ensures
        pair_view(pairs@) == crossings(active@, 0, 1, Set::<int>::empty()),
        forall|k: int| 0 <= k < pairs@.len() ==> {
            let (a, b) = #[trigger] pairs@[k];
            &&& a < b < active@.len()
            &&& active@[a as int].to == active@[b as int].from
            &&& active@[b as int].to == active@[a as int].from
        },
        forall|i: int, j: int|
            0 <= i < j < active@.len() && #[trigger] active@[i].to == active@[j].from
                && #[trigger] active@[j].to == active@[i].from ==> exists|k: int|
                0 <= k < pairs@.len() && (#[trigger] pairs@[k].0 == i || pairs@[k].1 == i || pairs@[k].0 == j
                    || pairs@[k].1 == j),
{
    let n = active.len();
    let ghost total = crossings(active@, 0, 1, Set::<int>::empty());
    let mut stopped: Vec<bool> = Vec::new();
    let mut k: usize = 0;
    while k < n
        invariant
            k <= n,
            stopped@.len() == k,
            forall|j: int| 0 <= j < k ==> !#[trigger] stopped@[j],
        decreases n - k,
    {
        stopped.push(false);
        k = k + 1;
    }
    let ghost mut st = Set::<int>::empty();
    let mut out: Vec<(usize, usize)> = Vec::new();
    proof {
        assert(pair_view(out@) =~= Seq::<(int, int)>::empty());
        assert(pair_view(out@) + crossings(active@, 0, 1, st) =~= total);
    }
    let mut l: usize = 0;
    while l < n
        invariant
            n == active@.len(),
            l <= n,
            stopped@.len() == n,
            forall|j: int| 0 <= j < n ==> (#[trigger] stopped@[j] <==> st.contains(j)),
            pair_view(out@) + crossings(active@, l as int, l + 1, st) == total,
        decreases n - l,
    {
        let mut r: usize = l + 1;
        while r < n
            invariant
                n == active@.len(),
                l < n,
                l + 1 <= r <= n,
                stopped@.len() == n,
                forall|j: int| 0 <= j < n ==> (#[trigger] stopped@[j] <==> st.contains(j)),
                pair_view(out@) + crossings(active@, l as int, r as int, st) == total,
            decreases n - r,
        {
            let ghost before = pair_view(out@);
            let left = active[l];
            let right = active[r];
            if !stopped[l] && !stopped[r] && left.to == right.from && right.to == left.from {
                out.push((l, r));
                stopped.set(l, true);
                stopped.set(r, true);
                proof {
                    let st2 = st.insert(l as int).insert(r as int);
                    assert(crossings(active@, l as int, r as int, st) == seq![(l as int, r as int)] + crossings(
                        active@,
                        l as int,
                        r + 1,
                        st2,
                    ));
                    assert(pair_view(out@) =~= before.push((l as int, r as int)));
                    assert(pair_view(out@) + crossings(active@, l as int, r + 1, st2) =~= before + crossings(
                        active@,
                        l as int,
                        r as int,
                        st,
                    ));
                    st = st2;
                }
            } else {
                proof {
                    assert(crossings(active@, l as int, r as int, st) == crossings(active@, l as int, r + 1, st));
                }
            }
            r = r + 1;
        }
        proof {
            assert(crossings(active@, l as int, r as int, st) == crossings(active@, l + 1, l + 2, st));
        }
        l = l + 1;
    }
    proof {
        assert(crossings(active@, l as int, l + 1, st) == Seq::<(int, int)>::empty());
        assert(pair_view(out@) + Seq::<(int, int)>::empty() =~= pair_view(out@));
        lemma_crossing_pairs_are_swaps(active@);
        let pv = pair_view(out@);
        assert forall|k: int| 0 <= k < out@.len() implies {
            let (a, b) = #[trigger] out@[k];
            &&& a < b < active@.len()
            &&& active@[a as int].to == active@[b as int].from
            &&& active@[b as int].to == active@[a as int].from
        } by {
            assert(pv[k] == (out@[k].0 as int, out@[k].1 as int));
        }
        assert forall|i: int, j: int|
            0 <= i < j < active@.len() && #[trigger] active@[i].to == active@[j].from
                && #[trigger] active@[j].to == active@[i].from implies exists|k: int|
                0 <= k < out@.len() && (#[trigger] out@[k].0 == i || out@[k].1 == i || out@[k].0 == j
                    || out@[k].1 == j) by {
            let m = if pairs_mention(pv, i) { i } else { j };
            let k = choose|k: int| 0 <= k < pv.len() && ((#[trigger] pv[k]).0 == m || pv[k].1 == m);
            assert(pv[k] == (out@[k].0 as int, out@[k].1 as int));
        }
    }
    out
}

/// Whether some pair of `pairs` names candidate `i`.
pub open spec fn pairs_mention(pairs: Seq<(int, int)>, i: int) -> bool {
    exists|k: int| 0 <= k < pairs.len() && ((#[trigger] pairs[k]).0 == i || pairs[k].1 == i)
}

/// Every pair found from `(l, r)` on is two different candidates, the first
/// before the second, that swap tiles (each enters the tile the other
/// leaves); and every two candidates that swap, come at or after `(l, r)`
/// in scan order and are not yet paired have one of them in a found pair.
proof fn lemma_crossings(s: Seq<MoveCandidate>, l: int, r: int, st: Set<int>)
    requires
        0 <= l,
        l < r,
    ensures
        forall|k: int| 0 <= k < crossings(s, l, r, st).len() ==> {
            let (a, b) = #[trigger] crossings(s, l, r, st)[k];
            &&& 0 <= a < b < s.len()
            &&& s[a].to == s[b].from
            &&& s[b].to == s[a].from
        },
        forall|i: int, j: int|
            0 <= i < j < s.len() && (i > l || (i == l && j >= r)) && !st.contains(i) && !st.contains(j)
                && #[trigger] s[i].to == s[j].from && #[trigger] s[j].to == s[i].from
                ==> pairs_mention(crossings(s, l, r, st), i) || pairs_mention(crossings(s, l, r, st), j),
    decreases s.len() - l, s.len() - r,
{
    let c = crossings(s, l, r, st);
    if l >= s.len() {
        assert(c == Seq::<(int, int)>::empty());
    } else if r >= s.len() {
        lemma_crossings(s, l + 1, l + 2, st);
        assert(c == crossings(s, l + 1, l + 2, st));
    } else if !st.contains(l) && !st.contains(r) && swaps(s[l], s[r]) {
        let st2 = st.insert(l).insert(r);
        lemma_crossings(s, l, r + 1, st2);
        let rest = crossings(s, l, r + 1, st2);
        assert(c == seq![(l, r)] + rest);
        assert forall|k: int| 0 <= k < c.len() implies {
            let (a, b) = #[trigger] c[k];
            &&& 0 <= a < b < s.len()
            &&& s[a].to == s[b].from
            &&& s[b].to == s[a].from
        } by {
            if k > 0 {
                assert(c[k] == rest[k - 1]);
            }
        }
        assert forall|i: int, j: int|
            0 <= i < j < s.len() && (i > l || (i == l && j >= r)) && !st.contains(i) && !st.contains(j)
                && #[trigger] s[i].to == s[j].from && #[trigger] s[j].to == s[i].from
            implies pairs_mention(c, i) || pairs_mention(c, j) by {
            if i == l || i == r {
                assert(c[0] == (l, r));
                assert(pairs_mention(c, i));
            } else if j == l || j == r {
                assert(c[0] == (l, r));
                assert(pairs_mention(c, j));
            } else {
                if pairs_mention(rest, i) {
                    let k = choose|k: int| 0 <= k < rest.len() && ((#[trigger] rest[k]).0 == i || rest[k].1 == i);
                    assert(c[k + 1] == rest[k]);
                } else {
                    assert(pairs_mention(rest, j));
                    let k = choose|k: int| 0 <= k < rest.len() && ((#[trigger] rest[k]).0 == j || rest[k].1 == j);
                    assert(c[k + 1] == rest[k]);
                }
            }
        }
    } else {
        lemma_crossings(s, l, r + 1, st);
        assert(c == crossings(s, l, r + 1, st));
    }
}

/// Law: the crossing pairs are exactly swaps that stop both candidates:
/// every pair is two different candidates, the first listed first, of
/// which each enters the tile the other leaves; and of any two candidates
/// that swap tiles, at least one is in some pair. A candidate entering a
/// tile that another leaves without taking its tile is in no pair with it.
pub proof fn lemma_crossing_pairs_are_swaps(active: Seq<MoveCandidate>)
    ensures
        forall|k: int| 0 <= k < crossings(active, 0, 1, Set::<int>::empty()).len() ==> {
            let (a, b) = #[trigger] crossings(active, 0, 1, Set::<int>::empty())[k];
            &&& 0 <= a < b < active.len()
            &&& active[a].to == active[b].from
            &&& active[b].to == active[a].from
        },
        forall|i: int, j: int|
            0 <= i < j < active.len() && #[trigger] active[i].to == active[j].from && #[trigger] active[j].to == active[i].from
                ==> pairs_mention(crossings(active, 0, 1, Set::<int>::empty()), i)
                || pairs_mention(crossings(active, 0, 1, Set::<int>::empty()), j),
{
    lemma_crossings(active, 0, 1, Set::<int>::empty());
}

proof fn lemma_beats_order(a: MoveCandidate, b: MoveCandidate, c: MoveCandidate)
    ensures
        !beats(a, a),
        beats(a, b) && beats(b, c) ==> beats(a, c),
        a.pending_index != b.pending_index ==> beats(a, b) || beats(b, a),
        beats(a, b) ==> !beats(b, a),
{
}

/// Among the first `n` candidates, one entering `t` that none of them
/// entering `t` beats, when any enters `t`.
proof fn lemma_tile_best(s: Seq<MoveCandidate>, t: MoveCoord, n: int)
    requires
        0 <= n <= s.len(),
    ensures
        (exists|i: int| 0 <= i < n && (#[trigger] s[i]).to == t) ==> exists|w: int|
            0 <= w < n && s[w].to == t && forall|j: int| 0 <= j < n && (#[trigger] s[j]).to == t ==> !beats(s[j], s[w]),
    decreases n,
{
    if n > 0 {
        lemma_tile_best(s, t, n - 1);
        let x = s[n - 1];
        lemma_beats_order(x, x, x);
        if exists|i: int| 0 <= i < n - 1 && (#[trigger] s[i]).to == t {
            let w = choose|w: int|
                0 <= w < n - 1 && s[w].to == t && forall|j: int| 0 <= j < n - 1 && (#[trigger] s[j]).to == t ==> !beats(s[j], s[w]);
            if x.to == t && beats(x, s[w]) {
                assert forall|j: int| 0 <= j < n && (#[trigger] s[j]).to == t implies !beats(s[j], x) by {
                    lemma_beats_order(s[j], x, s[w]);
                }
                assert(s[n - 1].to == t);
            } else {
                assert forall|j: int| 0 <= j < n && (#[trigger] s[j]).to == t implies !beats(s[j], s[w]) by {
                }
            }
        } else {
            if exists|i: int| 0 <= i < n && (#[trigger] s[i]).to == t {
                assert(x.to == t);
                assert forall|j: int| 0 <= j < n && (#[trigger] s[j]).to == t implies !beats(s[j], x) by {
                    if j < n - 1 {
                    }
                }
            }
        }
    }
}

/// Law: of the candidates entering one tile, with distinct pending
/// indexes, exactly one keeps the tile and every other loses it. One that
/// enters a tile nobody else enters keeps it; one with more movement left
/// than every other candidate for its tile keeps it; one for which another
/// candidate of the same tile has more movement left loses it.
pub proof fn lemma_one_winner_per_tile(s: Seq<MoveCandidate>, t: MoveCoord)
    requires
        forall|i: int, j: int| 0 <= i < j < s.len() ==> #[trigger] s[i].pending_index != #[trigger] s[j].pending_index,
    ensures
        (exists|i: int| 0 <= i < s.len() && (#[trigger] s[i]).to == t) ==> exists|w: int|
            0 <= w < s.len() && s[w].to == t && !loses_tile(s, w),
        forall|a: int, b: int|
            0 <= a < s.len() && 0 <= b < s.len() && (#[trigger] s[a]).to == t && (#[trigger] s[b]).to == t
                && !loses_tile(s, a) && !loses_tile(s, b) ==> a == b,
        forall|i: int|
            0 <= i < s.len() && (forall|j: int| 0 <= j < s.len() && j != i ==> (#[trigger] s[j]).to != s[i].to)
                ==> !loses_tile(s, i),
        forall|i: int|
            0 <= i < s.len() && (forall|j: int|
                0 <= j < s.len() && j != i && (#[trigger] s[j]).to == s[i].to ==> s[j].remaining_before
                    < s[i].remaining_before) ==> !loses_tile(s, i),
        forall|i: int, j: int|
            0 <= i < s.len() && 0 <= j < s.len() && (#[trigger] s[j]).to == (#[trigger] s[i]).to
                && s[j].remaining_before > s[i].remaining_before ==> loses_tile(s, i),
{
    lemma_tile_best(s, t, s.len() as int);
    if exists|i: int| 0 <= i < s.len() && (#[trigger] s[i]).to == t {
        let w = choose|w: int|
            0 <= w < s.len() && s[w].to == t && forall|j: int| 0 <= j < s.len() && (#[trigger] s[j]).to == t ==> !beats(s[j], s[w]);
        assert(!loses_tile(s, w));
    }
    assert forall|a: int, b: int|
        0 <= a < s.len() && 0 <= b < s.len() && (#[trigger] s[a]).to == t && (#[trigger] s[b]).to == t
            && !loses_tile(s, a) && !loses_tile(s, b) implies a == b by {
        if a != b {
            if a < b {
                assert(s[a].pending_index != s[b].pending_index);
            } else {
                assert(s[b].pending_index != s[a].pending_index);
            }
            lemma_beats_order(s[a], s[b], s[b]);
            if beats(s[a], s[b]) {
                assert(s[a].to == s[b].to);
            } else {
                assert(s[b].to == s[a].to);
            }
        }
    }
    assert forall|i: int|
        0 <= i < s.len() && (forall|j: int| 0 <= j < s.len() && j != i ==> (#[trigger] s[j]).to != s[i].to)
        implies !loses_tile(s, i) by {
        if loses_tile(s, i) {
            let j = choose|j: int| 0 <= j < s.len() && #[trigger] s[j].to == s[i].to && beats(s[j], s[i]);
            lemma_beats_order(s[i], s[i], s[i]);
            assert(j != i);
        }
    }
    assert forall|i: int|
        0 <= i < s.len() && (forall|j: int|
            0 <= j < s.len() && j != i && (#[trigger] s[j]).to == s[i].to ==> s[j].remaining_before
                < s[i].remaining_before) implies !loses_tile(s, i) by {
        if loses_tile(s, i) {
            let j = choose|j: int| 0 <= j < s.len() && #[trigger] s[j].to == s[i].to && beats(s[j], s[i]);
            lemma_beats_order(s[i], s[i], s[i]);
            assert(j != i);
        }
    }
}

} // verus!
