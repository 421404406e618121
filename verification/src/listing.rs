//! Listings of the world view: entries on the map ordered by cell, then by
//! kind and id, with repeated subjects dropped, and handed out a page at a
//! time.
use vstd::prelude::*;
use crate::dup::Duplicate;
use crate::order::{chars_lt, compare_chars, lemma_lt_irreflexive, lemma_lt_transitive, lemma_lt_trichotomy, KeyOrder};
use crate::text::chars_of;

verus! {

/// Where an entry of a listing stands and what it is.
pub struct GridKey {
    pub y: u16,
    pub x: u16,
    pub kind: Seq<char>,
    pub id: Seq<char>,
}

/// `a` comes strictly before `b`: by row, then column, then kind, then id
/// (texts in character order, which is the byte order of their UTF-8).
pub open spec fn grid_lt(a: GridKey, b: GridKey) -> bool {
    if a.y != b.y {
        a.y < b.y
    } else if a.x != b.x {
        a.x < b.x
    } else if a.kind != b.kind {
        chars_lt(a.kind, b.kind)
    } else {
        chars_lt(a.id, b.id)
    }
}

/// An entry of a listing on the map.
pub trait GridEntry: Sized + Duplicate {
    spec fn grid_key(&self) -> GridKey;

    fn grid_position(&self) -> (pos: (u16, u16))
        ensures
            pos.0 == self.grid_key().y,
            pos.1 == self.grid_key().x,
    ;

    fn grid_kind(&self) -> (kind: &str)
        ensures
            kind@ == self.grid_key().kind,
    ;

    fn grid_id(&self) -> (id: &str)
        ensures
            id@ == self.grid_key().id,
    ;
}

/// Whether two entries are about the same subject (same kind and id).
pub open spec fn same_subject<T: GridEntry>(a: T, b: T) -> bool {
    a.grid_key().kind == b.grid_key().kind && a.grid_key().id == b.grid_key().id
}

/// Where `x` goes into the ordered `s`: after every entry it does not come
/// strictly before.
pub open spec fn insert_pos<T: GridEntry>(s: Seq<T>, x: T) -> int
    decreases s.len(),
{
    if s.len() == 0 {
        0
    } else if grid_lt(x.grid_key(), s.last().grid_key()) {
        insert_pos(s.drop_last(), x)
    } else {
        s.len() as int
    }
}

/// The stable ordering of `s` by grid key: each entry in turn inserted
/// after the entries before it that it does not come strictly before.
pub open spec fn grid_sorted<T: GridEntry>(s: Seq<T>) -> Seq<T>
    decreases s.len(),
{
    if s.len() == 0 {
        s
    } else {
        let sorted = grid_sorted(s.drop_last());
        sorted.insert(insert_pos(sorted, s.last()), s.last())
    }
}

/// `s` without each entry about the same subject as the entry kept just
/// before it.
pub open spec fn dedup_subjects<T: GridEntry>(s: Seq<T>) -> Seq<T>
    decreases s.len(),
{
    if s.len() == 0 {
        s
    } else {
        let kept = dedup_subjects(s.drop_last());
        if kept.len() > 0 && same_subject(kept.last(), s.last()) {
            kept
        } else {
            kept.push(s.last())
        }
    }
}

proof fn lemma_insert_pos_bounds<T: GridEntry>(s: Seq<T>, x: T)
    ensures
        0 <= insert_pos(s, x) <= s.len(),
    decreases s.len(),
{
    if s.len() > 0 {
        lemma_insert_pos_bounds(s.drop_last(), x);
    }
}

proof fn lemma_grid_sorted_len<T: GridEntry>(s: Seq<T>)
    ensures
        grid_sorted(s).len() == s.len(),
    decreases s.len(),
{
    if s.len() > 0 {
        lemma_grid_sorted_len(s.drop_last());
        lemma_insert_pos_bounds(grid_sorted(s.drop_last()), s.last());
    }
}

fn grid_before<T: GridEntry>(a: &T, b: &T) -> (before: bool)
    ensures
        before == grid_lt(a.grid_key(), b.grid_key()),
{
    let (ay, ax) = a.grid_position();
    let (by, bx) = b.grid_position();
    if ay != by {
        return ay < by;
    }
    if ax != bx {
        return ax < bx;
    }
    let ka = chars_of(a.grid_kind());
    let kb = chars_of(b.grid_kind());
    match compare_chars(&ka, &kb) {
        KeyOrder::Before => true,
        KeyOrder::After => false,
        KeyOrder::Same => {
            let ia = chars_of(a.grid_id());
            let ib = chars_of(b.grid_id());
            match compare_chars(&ia, &ib) {
                KeyOrder::Before => true,
                _ => false,
            }
        },
    }
}

fn is_same_subject<T: GridEntry>(a: &T, b: &T) -> (same: bool)
    ensures
        same == same_subject(*a, *b),
{
    let ka = chars_of(a.grid_kind());
    let kb = chars_of(b.grid_kind());
    let ia = chars_of(a.grid_id());
    let ib = chars_of(b.grid_id());
    let same_kind = match compare_chars(&ka, &kb) {
        KeyOrder::Same => true,
        _ => false,
    };
    let same_id = match compare_chars(&ia, &ib) {
        KeyOrder::Same => true,
        _ => false,
    };
    same_kind && same_id
}

/// Inserts `x` into the ordered `sorted` where the stable order puts it.
fn insert_in_order<T: GridEntry>(sorted: &mut Vec<T>, x: T)
    ensures
        final(sorted)@ == old(sorted)@.insert(insert_pos(old(sorted)@, x), x),
{
    let ghost s = sorted@;
    let mut p: usize = sorted.len();
    proof {
        assert(s.take(s.len() as int) =~= s);
    }
    while p > 0 && grid_before(&x, &sorted[p - 1])
        invariant
            sorted@ == s,
            p <= s.len(),
            insert_pos(s, x) == insert_pos(s.take(p as int), x),
        decreases p,
    {
        proof {
            assert(s.take(p as int).drop_last() =~= s.take(p - 1));
            assert(s.take(p as int).last() == s[p - 1]);
        }
        p = p - 1;
    }
    proof {
        if p > 0 {
            assert(s.take(p as int).last() == s[p - 1]);
            assert(insert_pos(s.take(p as int), x) == p);
        } else {
            assert(insert_pos(s.take(0), x) == 0);
        }
    }
    sorted.insert(p, x);
}

/// The entries in stable grid order.
pub fn grid_sort<T: GridEntry>(items: &Vec<T>) -> (sorted: Vec<T>)
    ensures
        sorted@ == grid_sorted(items@),
{
    let mut sorted: Vec<T> = Vec::new();
    let mut i: usize = 0;
    while i < items.len()
        invariant
            i <= items@.len(),
            sorted@ == grid_sorted(items@.take(i as int)),
        decreases items@.len() - i,
    {
        proof {
            assert(items@.take(i + 1).drop_last() =~= items@.take(i as int));
            assert(items@.take(i + 1).last() == items@[i as int]);
        }
        let x = items[i].duplicate();
        insert_in_order(&mut sorted, x);
        i = i + 1;
    }
    proof {
        assert(items@.take(items@.len() as int) =~= items@);
    }
    sorted
}

/// The entries, each entry about the same subject as the entry kept just
/// before it dropped.
pub fn dedup_by_subject<T: GridEntry>(items: &Vec<T>) -> (out: Vec<T>)
    ensures
        out@ == dedup_subjects(items@),
{
    let mut out: Vec<T> = Vec::new();
    let mut j: usize = 0;
    while j < items.len()
        invariant
            j <= items@.len(),
            out@ == dedup_subjects(items@.take(j as int)),
        decreases items@.len() - j,
    {
        proof {
            assert(items@.take(j + 1).drop_last() =~= items@.take(j as int));
            assert(items@.take(j + 1).last() == items@[j as int]);
        }
        let keep = if out.len() == 0 {
            true
        } else {
            let last = out.len() - 1;
            !is_same_subject(&out[last], &items[j])
        };
        if keep {
            let x = items[j].duplicate();
            out.push(x);
        }
        j = j + 1;
    }
    proof {
        assert(items@.take(items@.len() as int) =~= items@);
    }
    out
}

/// The entries in stable grid order, each entry about the same subject as
/// the entry kept just before it dropped.
pub fn sort_and_dedup<T: GridEntry>(items: &Vec<T>) -> (out: Vec<T>)
    ensures
        out@ == dedup_subjects(grid_sorted(items@)),
{
    let sorted = grid_sort(items);
    dedup_by_subject(&sorted)
}

/// The window of a listing that a page shows: from the cursor (0 when none)
/// for at most `limit` entries.
pub struct PageWindow {
    pub start: usize,
    pub end: usize,
    pub has_more: bool,
    pub next_cursor: Option<u32>,
}

/// The end of the page: `limit` entries on from `start`, or the end of the
/// listing.
pub open spec fn page_end(start: nat, limit: nat, len: nat) -> nat {
    if start + limit < len { start + limit } else { len }
}

/// The page window of a listing of `len` entries.
pub fn page_window(cursor: Option<u32>, limit: u32, len: usize) -> (w: PageWindow)
    ensures
        w.start as nat == match cursor {
            Some(c) => c as nat,
            None => 0nat,
        },
        w.end as nat == page_end(w.start as nat, limit as nat, len as nat),
        w.has_more == (w.end < len),
        w.next_cursor == if w.has_more { Some(w.end as u32) } else { None },
{
    let start: usize = match cursor {
        Some(c) => c as usize,
        None => 0,
    };
    let end: usize = if (start as u128) + (limit as u128) < (len as u128) {
        start + limit as usize
    } else {
        len
    };
    let has_more = end < len;
    let next_cursor = if has_more { Some(end as u32) } else { None };
    PageWindow { start, end, has_more, next_cursor }
}

/// The entries of a page: those between the window's ends, none when it
/// starts past the end of the listing.
pub open spec fn page_items<T>(s: Seq<T>, start: nat, end: nat) -> Seq<T> {
    if start <= end { s.subrange(start as int, end as int) } else { Seq::empty() }
}

/// Copies out the entries of a page of the listing.
pub fn page_of<T: Duplicate>(items: &Vec<T>, w: &PageWindow) -> (page: Vec<T>)
    requires
        w.end <= items@.len(),
    ensures
        page@ == page_items(items@, w.start as nat, w.end as nat),
{
    let mut page: Vec<T> = Vec::new();
    if w.start > w.end {
        return page;
    }
    let mut i: usize = w.start;
    while i < w.end
        invariant
            w.start <= i <= w.end,
            w.end <= items@.len(),
            page@ == items@.subrange(w.start as int, i as int),
        decreases w.end - i,
    {
        let x = items[i].duplicate();
        page.push(x);
        proof {
            assert(items@.subrange(w.start as int, i + 1) =~= items@.subrange(w.start as int, i as int).push(items@[i as int]));
        }
        i = i + 1;
    }
    page
}

/// No entry of `s` comes strictly before an entry ahead of it.
pub open spec fn grid_ordered<T: GridEntry>(s: Seq<T>) -> bool {
    forall|i: int, j: int| 0 <= i < j < s.len() ==> !grid_lt(#[trigger] s[j].grid_key(), #[trigger] s[i].grid_key())
}

/// The grid order is a strict total order on keys.
proof fn lemma_grid_lt_order(a: GridKey, b: GridKey, c: GridKey)
    ensures
        !grid_lt(a, a),
        !(grid_lt(a, b) && grid_lt(b, a)),
        grid_lt(a, b) && !grid_lt(c, b) ==> grid_lt(a, c),
        !grid_lt(a, b) && !grid_lt(b, a) ==> a == b,
{
    lemma_lt_irreflexive(a.kind);
    lemma_lt_irreflexive(a.id);
    lemma_lt_trichotomy(a.kind, b.kind);
    lemma_lt_trichotomy(a.id, b.id);
    lemma_lt_trichotomy(b.kind, c.kind);
    lemma_lt_trichotomy(b.id, c.id);
    lemma_lt_trichotomy(a.kind, c.kind);
    lemma_lt_trichotomy(a.id, c.id);
    if grid_lt(a, b) && !grid_lt(c, b) {
        if a.y == b.y && b.y == c.y && a.x == b.x && b.x == c.x {
            if a.kind != b.kind && b.kind != c.kind {
                lemma_lt_transitive(a.kind, b.kind, c.kind);
            } else if a.kind == b.kind && b.kind == c.kind && b.id != c.id {
                lemma_lt_transitive(a.id, b.id, c.id);
            }
        }
    }
}

proof fn lemma_insert_ordered<T: GridEntry>(s: Seq<T>, x: T)
    requires
        grid_ordered(s),
    ensures
        forall|k: int| 0 <= k < insert_pos(s, x) ==> !grid_lt(x.grid_key(), #[trigger] s[k].grid_key()),
        forall|k: int| insert_pos(s, x) <= k < s.len() ==> grid_lt(x.grid_key(), #[trigger] s[k].grid_key()),
        grid_ordered(s.insert(insert_pos(s, x), x)),
    decreases s.len(),
{
    lemma_insert_pos_bounds(s, x);
    let p = insert_pos(s, x);
    let r = s.insert(p, x);
    if s.len() > 0 {
        let d = s.drop_last();
        assert(grid_ordered(d)) by {
            assert forall|i: int, j: int| 0 <= i < j < d.len() implies !grid_lt(#[trigger] d[j].grid_key(), #[trigger] d[i].grid_key()) by {
                assert(d[i] == s[i] && d[j] == s[j]);
            }
        }
        if grid_lt(x.grid_key(), s.last().grid_key()) {
            lemma_insert_ordered(d, x);
            assert forall|k: int| p <= k < s.len() implies grid_lt(x.grid_key(), #[trigger] s[k].grid_key()) by {
                if k < d.len() {
                    assert(d[k] == s[k]);
                }
            }
            assert forall|k: int| 0 <= k < p implies !grid_lt(x.grid_key(), #[trigger] s[k].grid_key()) by {
                assert(d[k] == s[k]);
            }
        } else {
            assert forall|k: int| 0 <= k < p implies !grid_lt(x.grid_key(), #[trigger] s[k].grid_key()) by {
                if k < s.len() - 1 {
                    assert(!grid_lt(s[s.len() - 1].grid_key(), s[k].grid_key()));
                    lemma_grid_lt_order(x.grid_key(), s[k].grid_key(), s.last().grid_key());
                }
            }
        }
    }
    assert forall|i: int, j: int| 0 <= i < j < r.len() implies !grid_lt(#[trigger] r[j].grid_key(), #[trigger] r[i].grid_key()) by {
        if i < p && j < p {
            assert(r[i] == s[i] && r[j] == s[j]);
        } else if i < p && j == p {
            assert(r[i] == s[i] && r[j] == x);
        } else if i < p {
            assert(r[i] == s[i] && r[j] == s[j - 1]);
        } else if i == p {
            assert(r[i] == x && r[j] == s[j - 1]);
            lemma_grid_lt_order(x.grid_key(), s[j - 1].grid_key(), x.grid_key());
        } else {
            assert(r[i] == s[i - 1] && r[j] == s[j - 1]);
        }
    }
}

proof fn lemma_grid_sorted<T: GridEntry>(s: Seq<T>)
    ensures
        grid_ordered(grid_sorted(s)),
        grid_sorted(s).to_multiset() == s.to_multiset(),
    decreases s.len(),
{
    broadcast use vstd::seq_lib::to_multiset_insert, vstd::seq_lib::to_multiset_build;

    if s.len() > 0 {
        let d = s.drop_last();
        lemma_grid_sorted(d);
        lemma_insert_ordered(grid_sorted(d), s.last());
        lemma_insert_pos_bounds(grid_sorted(d), s.last());
        assert(s =~= d.push(s.last()));
    } else {
        assert(grid_sorted(s) =~= s);
    }
}

proof fn lemma_drop_last_ordered<T: GridEntry>(s: Seq<T>)
    requires
        grid_ordered(s),
        s.len() > 0,
    ensures
        grid_ordered(s.drop_last()),
{
    let d = s.drop_last();
    assert forall|i: int, j: int| 0 <= i < j < d.len() implies !grid_lt(#[trigger] d[j].grid_key(), #[trigger] d[i].grid_key()) by {
        assert(d[i] == s[i] && d[j] == s[j]);
    }
}

/// Every entry kept comes from the input.
proof fn lemma_dedup_from<T: GridEntry>(s: Seq<T>)
    ensures
        forall|i: int| 0 <= i < dedup_subjects(s).len() ==> exists|k: int| 0 <= k < s.len() && s[k] == #[trigger] dedup_subjects(s)[i],
        dedup_subjects(s).len() <= s.len(),
    decreases s.len(),
{
    if s.len() > 0 {
        let d = s.drop_last();
        lemma_dedup_from(d);
        let kept = dedup_subjects(d);
        let out = dedup_subjects(s);
        assert forall|i: int| 0 <= i < out.len() implies exists|k: int| 0 <= k < s.len() && s[k] == #[trigger] out[i] by {
            if i < kept.len() {
                assert(out[i] == kept[i]);
                let k = choose|k: int| 0 <= k < d.len() && d[k] == kept[i];
                assert(s[k] == d[k]);
            } else {
                assert(out[i] == s[s.len() - 1]);
            }
        }
    }
}

/// Every subject of the input is kept.
proof fn lemma_dedup_covers<T: GridEntry>(s: Seq<T>)
    ensures
        forall|i: int| 0 <= i < s.len() ==> exists|j: int| 0 <= j < dedup_subjects(s).len() && same_subject(#[trigger] s[i], dedup_subjects(s)[j]),
    decreases s.len(),
{
    if s.len() > 0 {
        let d = s.drop_last();
        lemma_dedup_covers(d);
        let kept = dedup_subjects(d);
        let out = dedup_subjects(s);
        assert forall|i: int| 0 <= i < s.len() implies exists|j: int| 0 <= j < out.len() && same_subject(#[trigger] s[i], out[j]) by {
            if i < s.len() - 1 {
                assert(s[i] == d[i]);
                let j = choose|j: int| 0 <= j < kept.len() && same_subject(d[i], kept[j]);
                assert(out[j] == kept[j]);
            } else if kept.len() > 0 && same_subject(kept.last(), s.last()) {
                assert(out[kept.len() - 1] == kept.last());
            } else {
                assert(out[out.len() - 1] == s.last());
            }
        }
    }
}

/// No two neighbouring entries kept are about the same subject.
proof fn lemma_dedup_adjacent<T: GridEntry>(s: Seq<T>)
    ensures
        forall|i: int| 0 < i < dedup_subjects(s).len() ==> !same_subject(#[trigger] dedup_subjects(s)[i - 1], dedup_subjects(s)[i]),
    decreases s.len(),
{
    if s.len() > 0 {
        let d = s.drop_last();
        lemma_dedup_adjacent(d);
        let kept = dedup_subjects(d);
        let out = dedup_subjects(s);
        assert forall|i: int| 0 < i < out.len() implies !same_subject(#[trigger] out[i - 1], out[i]) by {
            if i < kept.len() {
                assert(out[i - 1] == kept[i - 1] && out[i] == kept[i]);
            } else {
                assert(out[i - 1] == kept.last());
            }
        }
    }
}

/// Dropping repeated subjects keeps the grid order.
proof fn lemma_dedup_ordered<T: GridEntry>(s: Seq<T>)
    requires
        grid_ordered(s),
    ensures
        grid_ordered(dedup_subjects(s)),
    decreases s.len(),
{
    if s.len() > 0 {
        let d = s.drop_last();
        lemma_drop_last_ordered(s);
        lemma_dedup_ordered(d);
        lemma_dedup_from(d);
        let kept = dedup_subjects(d);
        let out = dedup_subjects(s);
        if !(kept.len() > 0 && same_subject(kept.last(), s.last())) {
            assert forall|i: int, j: int| 0 <= i < j < out.len() implies !grid_lt(#[trigger] out[j].grid_key(), #[trigger] out[i].grid_key()) by {
                if j < kept.len() {
                    assert(out[i] == kept[i] && out[j] == kept[j]);
                } else {
                    assert(out[i] == kept[i]);
                    assert(out[j] == s[s.len() - 1]);
                    let k = choose|k: int| 0 <= k < d.len() && d[k] == kept[i];
                    assert(s[k] == d[k]);
                }
            }
        }
    }
}

/// A listing comes out in grid order (no entry strictly before one ahead
/// of it), with no two neighbouring entries about the same subject; every
/// entry listed is one of the input's, and every subject of the input is
/// listed.
#[verifier::rlimit(40)]
pub proof fn lemma_listing_order<T: GridEntry>(s: Seq<T>)
    ensures
        grid_ordered(dedup_subjects(grid_sorted(s))),
        forall|i: int| 0 < i < dedup_subjects(grid_sorted(s)).len() ==> !same_subject(
            #[trigger] dedup_subjects(grid_sorted(s))[i - 1],
            dedup_subjects(grid_sorted(s))[i],
        ),
        forall|i: int| 0 <= i < dedup_subjects(grid_sorted(s)).len() ==> s.contains(#[trigger] dedup_subjects(grid_sorted(s))[i]),
        forall|i: int| 0 <= i < s.len() ==> exists|j: int| 0 <= j < dedup_subjects(grid_sorted(s)).len() && same_subject(
            #[trigger] s[i],
            dedup_subjects(grid_sorted(s))[j],
        ),
{
    lemma_grid_sorted(s);
    let sorted = grid_sorted(s);
    lemma_dedup_ordered(sorted);
    lemma_dedup_adjacent(sorted);
    lemma_dedup_from(sorted);
    lemma_dedup_covers(sorted);
    let out = dedup_subjects(sorted);
    assert forall|i: int| 0 <= i < out.len() implies s.contains(#[trigger] out[i]) by {
        let k = choose|k: int| 0 <= k < sorted.len() && sorted[k] == out[i];
        lemma_same_contents(sorted, s, out[i]);
    }
    assert forall|i: int| 0 <= i < s.len() implies exists|j: int| 0 <= j < out.len() && same_subject(#[trigger] s[i], out[j]) by {
        lemma_same_contents(s, sorted, s[i]);
        let k = choose|k: int| 0 <= k < sorted.len() && sorted[k] == s[i];
        let j = choose|j: int| 0 <= j < out.len() && same_subject(sorted[k], out[j]);
    }
}

/// The sorted entries are the input's entries.
pub proof fn lemma_sorted_entries_from<T: GridEntry>(s: Seq<T>)
    ensures
        grid_sorted(s).len() == s.len(),
        forall|k: int| 0 <= k < grid_sorted(s).len() ==> s.contains(#[trigger] grid_sorted(s)[k]),
{
    lemma_grid_sorted_len(s);
    lemma_grid_sorted(s);
    assert forall|k: int| 0 <= k < grid_sorted(s).len() implies s.contains(#[trigger] grid_sorted(s)[k]) by {
        lemma_same_contents(grid_sorted(s), s, grid_sorted(s)[k]);
    }
}

proof fn lemma_same_contents<T>(a: Seq<T>, b: Seq<T>, x: T)
    requires
        a.to_multiset() == b.to_multiset(),
        exists|k: int| 0 <= k < a.len() && a[k] == x,
    ensures
        exists|k: int| 0 <= k < b.len() && b[k] == x,
{
    broadcast use vstd::seq_lib::to_multiset_contains;

    assert(a.contains(x));
    assert(a.to_multiset().count(x) > 0);
    assert(b.to_multiset().count(x) > 0);
    assert(b.contains(x));
}

} // verus!
