//! Setting up a battle against a neutral army: where the stacks of each side
//! start, which spells the attacking champion brings in, the initial
//! obstacles, and which stack acts first.
use vstd::prelude::*;
use crate::order::{chars_lt, compare_chars, lemma_lt_transitive, lemma_lt_trichotomy, KeyOrder};
use crate::latest_views::SlugEntry;
use crate::listing::{grid_sort, grid_sorted};
use crate::runtime::strings_contain;
use crate::text::{chars_of, push_str, str_eq};

verus! {

/// The row an attacking champion's stack starts on: slot 0 on row 3, slot 1
/// on row 6, any other slot `2 + slot`, within a grid of `grid_height` rows.
pub open spec fn attacker_row_spec(slot_index: u8, grid_height: u8) -> u8 {
    if slot_index == 0 {
        3
    } else if slot_index == 1 {
        6
    } else {
        let row: int = if 2 + slot_index <= u8::MAX { 2 + slot_index } else { u8::MAX as int };
        if row <= grid_height - 1 { row as u8 } else { (grid_height - 1) as u8 }
    }
}

/// The row an attacking champion's stack starts on.
pub fn attacker_row(slot_index: u8, grid_height: u8) -> (row: u8)
    requires
        grid_height >= 1,
    ensures
        row == attacker_row_spec(slot_index, grid_height),
{
    if slot_index == 0 {
        3
    } else if slot_index == 1 {
        6
    } else {
        let row = 2u8.saturating_add(slot_index);
        if row <= grid_height - 1 { row } else { grid_height - 1 }
    }
}

/// The row a neutral army's stack starts on: `4 + slot`, within a grid of
/// `grid_height` rows.
pub fn defender_row(slot_index: u8, grid_height: u8) -> (row: u8)
    requires
        grid_height >= 1,
    ensures
        row == ({
            let r: int = if 4 + slot_index <= u8::MAX { 4 + slot_index } else { u8::MAX as int };
            if r <= grid_height - 1 { r } else { grid_height - 1 }
        }),
{
    let row = 4u8.saturating_add(slot_index);
    if row <= grid_height - 1 { row } else { grid_height - 1 }
}

/// The column the attackers start on.
pub const ATTACKER_COLUMN: u8 = 1;

/// The column the defenders start on: the second from the right.
pub fn defender_column(grid_width: u8) -> (column: u8)
    requires
        grid_width >= 2,
    ensures
        column == grid_width - 2,
{
    grid_width - 2
}

/// An obstacle a battle starts with.
pub struct ObstacleSeed {
    pub obstacle_key: &'static str,
    pub x: u8,
    pub y: u8,
}

/// The obstacles every battle starts with: rubble at (5, 4) and a broken
/// cart at (6, 5).
pub fn initial_battle_obstacles() -> (obstacles: Vec<ObstacleSeed>)
    ensures
        obstacles@.len() == 2,
        obstacles@[0].obstacle_key@ == "rubble"@ && obstacles@[0].x == 5 && obstacles@[0].y == 4,
        obstacles@[1].obstacle_key@ == "broken-cart"@ && obstacles@[1].x == 6 && obstacles@[1].y == 5,
{
    let mut obstacles: Vec<ObstacleSeed> = Vec::new();
    obstacles.push(ObstacleSeed { obstacle_key: "rubble", x: 5, y: 4 });
    obstacles.push(ObstacleSeed { obstacle_key: "broken-cart", x: 6, y: 5 });
    obstacles
}

/// Whether some skill is `sour_sorcery`, the skill that brings spells into
/// battle and into the champion's view.
pub open spec fn knows_sorcery(skill_keys: Seq<String>) -> bool {
    exists|i: int| 0 <= i < skill_keys.len() && #[trigger] skill_keys[i]@ == "sour_sorcery"@
}

fn has_sorcery(skill_keys: &Vec<String>) -> (found: bool)
    ensures
        found == knows_sorcery(skill_keys@),
{
    let mut i: usize = 0;
    while i < skill_keys.len()
        invariant
            i <= skill_keys@.len(),
            forall|j: int| 0 <= j < i ==> #[trigger] skill_keys@[j]@ != "sour_sorcery"@,
        decreases skill_keys@.len() - i,
    {
        if str_eq(skill_keys[i].as_str(), "sour_sorcery") {
            return true;
        }
        i = i + 1;
    }
    false
}

/// The status key a spell brings into battle.
pub open spec fn status_key(slug: Seq<char>) -> Seq<char> {
    "battle_spell:"@ + slug
}

/// Whether `key` is the status key of a known spell with a slug.
pub open spec fn is_spell_status(spell_slugs: Seq<String>, key: Seq<char>) -> bool {
    exists|i: int| 0 <= i < spell_slugs.len() && (#[trigger] spell_slugs[i])@.len() > 0 && key == status_key(spell_slugs[i]@)
}

/// Whether `key` is the status key of one of the first `n` spells that has a
/// slug.
pub open spec fn status_among(spell_slugs: Seq<String>, n: int, key: Seq<char>) -> bool {
    exists|j: int| 0 <= j < n && (#[trigger] spell_slugs[j])@.len() > 0 && key == status_key(spell_slugs[j]@)
}

/// Every key comes strictly before the next ones.
pub open spec fn strictly_sorted(keys: Seq<String>) -> bool {
    forall|i: int, j: int| 0 <= i < j < keys.len() ==> chars_lt(#[trigger] keys[i]@, #[trigger] keys[j]@)
}

/// Adds `key` to the strictly sorted `keys` unless it is there already.
fn insert_unique(keys: &mut Vec<String>, key: String)
    requires
        strictly_sorted(old(keys)@),
    ensures
        strictly_sorted(final(keys)@),
        forall|k: Seq<char>| #[trigger] strings_contain(final(keys)@, k) <==> (strings_contain(old(keys)@, k) || k == key@),
{
    let ghost s = keys@;
    let kc = chars_of(key.as_str());
    let mut p: usize = 0;
    let mut found_place = false;
    while !found_place && p < keys.len()
        invariant
            keys@ == s,
            kc@ == key@,
            p <= s.len(),
            found_place ==> p < s.len() && !chars_lt(s[p as int]@, key@),
            forall|i: int| 0 <= i < p ==> chars_lt(#[trigger] s[i]@, key@),
        decreases s.len() - p + (if found_place { 0int } else { 1int }),
    {
        let c = chars_of(keys[p].as_str());
        if compare_chars(&c, &kc) == KeyOrder::Before {
            p = p + 1;
        } else {
            found_place = true;
        }
    }
    if p < keys.len() {
        let c = chars_of(keys[p].as_str());
        if compare_chars(&c, &kc) == KeyOrder::Same {
            proof {
                assert forall|k: Seq<char>| #[trigger] strings_contain(keys@, k) <==> (strings_contain(s, k) || k == key@) by {
                    if k == key@ {
                        assert(s[p as int]@ == k);
                    }
                }
            }
            return;
        }
        proof {
            lemma_lt_trichotomy(s[p as int]@, key@);
        }
    }
    let ghost before = keys@;
    keys.insert(p, key);
    proof {
        let t = keys@;
        assert forall|i: int, j: int| 0 <= i < j < t.len() implies chars_lt(#[trigger] t[i]@, #[trigger] t[j]@) by {
            if j < p {
                assert(t[i] == s[i] && t[j] == s[j]);
            } else if j == p {
                assert(t[i] == s[i]);
            } else if i < p {
                assert(t[i] == s[i] && t[j] == s[j - 1]);
                if j - 1 > p {
                    lemma_lt_transitive(key@, s[p as int]@, s[j - 1]@);
                }
                lemma_lt_transitive(s[i]@, key@, s[j - 1]@);
            } else if i == p {
                assert(t[j] == s[j - 1]);
                if j - 1 > p {
                    lemma_lt_transitive(key@, s[p as int]@, s[j - 1]@);
                }
            } else {
                assert(t[i] == s[i - 1] && t[j] == s[j - 1]);
            }
        }
        assert forall|k: Seq<char>| #[trigger] strings_contain(t, k) <==> (strings_contain(s, k) || k == key@) by {
            if strings_contain(t, k) {
                let i = choose|i: int| 0 <= i < t.len() && #[trigger] t[i]@ == k;
                if i < p {
                    assert(t[i] == s[i]);
                } else if i > p {
                    assert(t[i] == s[i - 1]);
                }
            }
            if strings_contain(s, k) {
                let i = choose|i: int| 0 <= i < s.len() && #[trigger] s[i]@ == k;
                if i < p {
                    assert(t[i] == s[i]);
                } else {
                    assert(t[i + 1] == s[i]);
                }
            }
            if k == key@ {
                assert(t[p as int]@ == k);
            }
        }
    }
}

/// The spell status keys an attacking champion brings into battle: none
/// without sorcery; else `battle_spell:<slug>` for each known spell with a
/// non-empty slug, in character order, each once.
pub fn battle_spell_status_keys(skill_keys: &Vec<String>, spell_slugs: &Vec<String>) -> (keys: Vec<String>)
    ensures
        !knows_sorcery(skill_keys@) ==> keys@.len() == 0,
        knows_sorcery(skill_keys@) ==> {
            &&& strictly_sorted(keys@)
            &&& forall|k: Seq<char>| #[trigger] strings_contain(keys@, k) <==> is_spell_status(spell_slugs@, k)
        },
{
    let mut keys: Vec<String> = Vec::new();
    if !has_sorcery(skill_keys) {
        return keys;
    }
    let mut i: usize = 0;
    while i < spell_slugs.len()
        invariant
            i <= spell_slugs@.len(),
            strictly_sorted(keys@),
            forall|k: Seq<char>| #[trigger] strings_contain(keys@, k) <==> status_among(spell_slugs@, i as int, k),
        decreases spell_slugs@.len() - i,
    {
        let slug = &spell_slugs[i];
        if slug.unicode_len() > 0 {
            let mut key = String::new();
            push_str(&mut key, "battle_spell:");
            push_str(&mut key, slug.as_str());
            proof {
                assert(key@ =~= status_key(slug@));
            }
            insert_unique(&mut keys, key);
        }
        proof {
            assert forall|k: Seq<char>| #[trigger] strings_contain(keys@, k) <==> status_among(spell_slugs@, i + 1, k) by {
                if status_among(spell_slugs@, i + 1, k) {
                    let j = choose|j: int| 0 <= j < i + 1 && (#[trigger] spell_slugs@[j])@.len() > 0 && k == status_key(spell_slugs@[j]@);
                    if j < i {
                        assert(status_among(spell_slugs@, i as int, k));
                    }
                }
                if status_among(spell_slugs@, i as int, k) {
                    let j = choose|j: int| 0 <= j < i && (#[trigger] spell_slugs@[j])@.len() > 0 && k == status_key(spell_slugs@[j]@);
                    assert(status_among(spell_slugs@, i + 1, k));
                }
            }
        }
        i = i + 1;
    }
    proof {
        assert forall|k: Seq<char>| #[trigger] strings_contain(keys@, k) <==> is_spell_status(spell_slugs@, k) by {
            assert(status_among(spell_slugs@, spell_slugs@.len() as int, k) == is_spell_status(spell_slugs@, k));
        }
    }
    keys
}

/// What decides which stack of a battle acts first.
pub struct StackInitiative {
    pub initiative: u16,
    pub speed: u16,
    pub tie_break: u64,
    pub stack_id: String,
}

/// `a` acts strictly before `b`: higher initiative, then higher speed, then
/// the lower tie break, then the lower id.
pub open spec fn acts_before(a: StackInitiative, b: StackInitiative) -> bool {
    if a.initiative != b.initiative {
        a.initiative > b.initiative
    } else if a.speed != b.speed {
        a.speed > b.speed
    } else if a.tie_break != b.tie_break {
        a.tie_break < b.tie_break
    } else {
        chars_lt(a.stack_id@, b.stack_id@)
    }
}

fn stack_acts_before(a: &StackInitiative, b: &StackInitiative) -> (before: bool)
    ensures
        before == acts_before(*a, *b),
{
    if a.initiative != b.initiative {
        return a.initiative > b.initiative;
    }
    if a.speed != b.speed {
        return a.speed > b.speed;
    }
    if a.tie_break != b.tie_break {
        return a.tie_break < b.tie_break;
    }
    let ia = chars_of(a.stack_id.as_str());
    let ib = chars_of(b.stack_id.as_str());
    compare_chars(&ia, &ib) == KeyOrder::Before
}

proof fn lemma_acts_before_order(a: StackInitiative, b: StackInitiative, c: StackInitiative)
    ensures
        !(acts_before(a, b) && acts_before(b, a)),
        acts_before(a, b) && acts_before(b, c) ==> acts_before(a, c),
        !acts_before(a, b) && !acts_before(b, a) ==> a.stack_id@ == b.stack_id@ && a.initiative == b.initiative
            && a.speed == b.speed && a.tie_break == b.tie_break,
{
    lemma_lt_trichotomy(a.stack_id@, b.stack_id@);
    if acts_before(a, b) && acts_before(b, c) && a.initiative == b.initiative && b.initiative == c.initiative
        && a.speed == b.speed && b.speed == c.speed && a.tie_break == b.tie_break && b.tie_break == c.tie_break {
        lemma_lt_transitive(a.stack_id@, b.stack_id@, c.stack_id@);
    }
}

/// The stack that acts first: none acts before it, and it acts strictly
/// before every stack listed ahead of it (the first of equals).
pub fn initial_active_stack(stacks: &Vec<StackInitiative>) -> (first: Option<usize>)
    ensures
        stacks@.len() == 0 ==> first is None,
        stacks@.len() > 0 ==> (first matches Some(i) && i < stacks@.len()
            && (forall|j: int| 0 <= j < stacks@.len() ==> !acts_before(#[trigger] stacks@[j], stacks@[i as int]))
            && (forall|j: int| 0 <= j < i ==> acts_before(stacks@[i as int], #[trigger] stacks@[j]))),
{
    if stacks.len() == 0 {
        return None;
    }
    let mut best: usize = 0;
    let mut j: usize = 1;
    proof {
        lemma_acts_before_order(stacks@[0], stacks@[0], stacks@[0]);
    }
    while j < stacks.len()
        invariant
            1 <= j <= stacks@.len(),
            best < j,
            forall|k: int| 0 <= k < j ==> !acts_before(#[trigger] stacks@[k], stacks@[best as int]),
            forall|k: int| 0 <= k < best ==> acts_before(stacks@[best as int], #[trigger] stacks@[k]),
        decreases stacks@.len() - j,
    {
        if stack_acts_before(&stacks[j], &stacks[best]) {
            proof {
                assert forall|k: int| 0 <= k < j + 1 implies !acts_before(#[trigger] stacks@[k], stacks@[j as int]) by {
                    lemma_acts_before_order(stacks@[k], stacks@[j as int], stacks@[best as int]);
                    lemma_acts_before_order(stacks@[j as int], stacks@[best as int], stacks@[k]);
                    if acts_before(stacks@[k], stacks@[j as int]) {
                        lemma_acts_before_order(stacks@[k], stacks@[j as int], stacks@[best as int]);
                    }
                }
                assert forall|k: int| 0 <= k < j implies acts_before(stacks@[j as int], #[trigger] stacks@[k]) by {
                    lemma_acts_before_order(stacks@[j as int], stacks@[best as int], stacks@[k]);
                    lemma_acts_before_order(stacks@[k], stacks@[best as int], stacks@[k]);
                    if k != best {
                        if k < best {
                            lemma_acts_before_order(stacks@[j as int], stacks@[best as int], stacks@[k]);
                        } else {
                            lemma_acts_before_order(stacks@[k], stacks@[best as int], stacks@[j as int]);
                            lemma_acts_before_order(stacks@[best as int], stacks@[k], stacks@[j as int]);
                            lemma_acts_before_order(stacks@[j as int], stacks@[best as int], stacks@[k]);
                        }
                    }
                }
            }
            best = j;
        }
        j = j + 1;
    }
    Some(best)
}

/// The slugs as listing entries.
pub open spec fn slug_entries(slugs: Seq<String>) -> Seq<SlugEntry> {
    slugs.map_values(|s: String| SlugEntry { slug: s })
}

/// The spell slugs a champion's view lists: none without sorcery; else
/// all of them in character order.
pub fn learned_spell_slugs(skill_keys: &Vec<String>, slugs: &Vec<String>) -> (listed: Vec<String>)
    ensures
        !knows_sorcery(skill_keys@) ==> listed@.len() == 0,
        knows_sorcery(skill_keys@) ==> {
            let sorted = grid_sorted(slug_entries(slugs@));
            &&& listed@.len() == sorted.len()
            &&& forall|k: int| 0 <= k < sorted.len() ==> #[trigger] listed@[k] == sorted[k].slug
        },
{
    if !has_sorcery(skill_keys) {
        return Vec::new();
    }
    let mut entries: Vec<SlugEntry> = Vec::new();
    let mut i: usize = 0;
    while i < slugs.len()
        invariant
            i <= slugs@.len(),
            entries@ == slug_entries(slugs@.take(i as int)),
        decreases slugs@.len() - i,
    {
        entries.push(SlugEntry { slug: slugs[i].clone() });
        proof {
            assert(entries@ =~= slug_entries(slugs@.take(i + 1)));
        }
        i = i + 1;
    }
    proof {
        assert(slugs@.take(slugs@.len() as int) =~= slugs@);
    }
    let sorted = grid_sort(&entries);
    let mut out: Vec<String> = Vec::new();
    let mut k: usize = 0;
    while k < sorted.len()
        invariant
            k <= sorted@.len(),
            out@.len() == k,
            forall|m: int| 0 <= m < k ==> #[trigger] out@[m] == sorted@[m].slug,
        decreases sorted@.len() - k,
    {
        out.push(sorted[k].slug.clone());
        k = k + 1;
    }
    out
}

} // verus!
