//! Reads of a session's latest active turn: the champions, world objects and
//! participants its runtime holds.
use vstd::prelude::*;
use crate::dup::{dup_vec, Duplicate};
use crate::runtime::SessionTurnRuntime;
use crate::listing::{grid_sort, grid_sorted, GridEntry, GridKey};
use crate::runtime::strings_contain;
use crate::runtime_types::{ChampionSnapshot, RuntimeChampionSpell, SessionTurnParticipant, WorldObjectSnapshot};
use crate::seqs::{find_first, lemma_find_first_is, lemma_find_first_none};
use crate::store::RuntimeStore;
use crate::text::str_eq;

verus! {

/// The place of the runtime of session `session_id` with the greatest turn
/// (the last such runtime when turns tie), or `-1`.
pub open spec fn latest_index(rs: Seq<SessionTurnRuntime>, session_id: Seq<char>) -> int
    decreases rs.len(),
{
    if rs.len() == 0 {
        -1
    } else {
        let best = latest_index(rs.drop_last(), session_id);
        if rs.last().session_id@ == session_id && (best == -1 || rs.last().turn_number >= rs[best].turn_number) {
            rs.len() - 1
        } else {
            best
        }
    }
}

proof fn lemma_latest_index_bounds(rs: Seq<SessionTurnRuntime>, session_id: Seq<char>)
    ensures
        -1 <= latest_index(rs, session_id) < rs.len(),
        latest_index(rs, session_id) >= 0 ==> rs[latest_index(rs, session_id)].session_id@ == session_id,
    decreases rs.len(),
{
    if rs.len() > 0 {
        lemma_latest_index_bounds(rs.drop_last(), session_id);
        let best = latest_index(rs.drop_last(), session_id);
        if best >= 0 {
            assert(rs.drop_last()[best] == rs[best]);
        }
    }
}

/// The runtime of the session's latest active turn.
pub open spec fn latest_runtime_spec(store: RuntimeStore, session_id: Seq<char>) -> Option<SessionTurnRuntime> {
    let i = latest_index(store.runtimes@, session_id);
    if i >= 0 { Some(store.runtimes@[i]) } else { None }
}

pub open spec fn champion_is(champion_id: Seq<char>) -> spec_fn(ChampionSnapshot) -> bool {
    |c: ChampionSnapshot| c.champion_id@ == champion_id
}

pub open spec fn object_at(x: u16, y: u16) -> spec_fn(WorldObjectSnapshot) -> bool {
    |o: WorldObjectSnapshot| o.x == x && o.y == y
}

pub open spec fn object_is(object_id: Seq<char>) -> spec_fn(WorldObjectSnapshot) -> bool {
    |o: WorldObjectSnapshot| o.object_id@ == object_id
}

pub open spec fn participant_is(participant_id: Seq<char>) -> spec_fn(SessionTurnParticipant) -> bool {
    |p: SessionTurnParticipant| p.participant_id@ == participant_id
}

/// The first element of `s` that satisfies `p`.
pub open spec fn first_match<T>(s: Seq<T>, p: spec_fn(T) -> bool) -> Option<T> {
    let i = find_first(s, p);
    if i >= 0 { Some(s[i]) } else { None }
}

impl RuntimeStore {
    /// The runtime of a session's latest active turn, if any.
    pub fn latest_runtime(&self, session_id: &str) -> (found: Option<&SessionTurnRuntime>)
        ensures
            match found {
                Some(r) => latest_runtime_spec(*self, session_id@) == Some(*r),
                None => latest_runtime_spec(*self, session_id@) is None,
            },
    {
        let mut best: Option<usize> = None;
        let mut i: usize = 0;
        while i < self.runtimes.len()
            invariant
                i <= self.runtimes@.len(),
                match best {
                    Some(b) => b as int == latest_index(self.runtimes@.take(i as int), session_id@) && b < i,
                    None => latest_index(self.runtimes@.take(i as int), session_id@) == -1,
                },
            decreases self.runtimes@.len() - i,
        {
            proof {
                assert(self.runtimes@.take(i + 1).drop_last() =~= self.runtimes@.take(i as int));
                assert(self.runtimes@.take(i + 1).last() == self.runtimes@[i as int]);
                match best {
                    Some(b) => assert(self.runtimes@.take(i + 1)[b as int] == self.runtimes@[b as int]),
                    None => {},
                }
            }
            let r = &self.runtimes[i];
            if str_eq(r.session_id.as_str(), session_id) {
                let better = match best {
                    None => true,
                    Some(b) => r.turn_number >= self.runtimes[b].turn_number,
                };
                if better {
                    best = Some(i);
                }
            }
            i = i + 1;
        }
        proof {
            assert(self.runtimes@.take(self.runtimes@.len() as int) =~= self.runtimes@);
        }
        match best {
            Some(b) => Some(&self.runtimes[b]),
            None => None,
        }
    }

    /// A champion as the session's latest active turn holds it.
    pub fn champion_snapshot(&self, session_id: &str, champion_id: &str) -> (found: Option<ChampionSnapshot>)
        ensures
            found == match latest_runtime_spec(*self, session_id@) {
                Some(r) => first_match(r.champion_snapshots@, champion_is(champion_id@)),
                None => None,
            },
    {
        let r = match self.latest_runtime(session_id) {
            Some(r) => r,
            None => return None,
        };
        let mut i: usize = 0;
        while i < r.champion_snapshots.len()
            invariant
                i <= r.champion_snapshots@.len(),
                latest_runtime_spec(*self, session_id@) == Some(*r),
                forall|j: int| 0 <= j < i ==> !(#[trigger] champion_is(champion_id@)(r.champion_snapshots@[j])),
            decreases r.champion_snapshots@.len() - i,
        {
            if str_eq(r.champion_snapshots[i].champion_id.as_str(), champion_id) {
                proof {
                    lemma_find_first_is(r.champion_snapshots@, champion_is(champion_id@), i as int);
                }
                let c = r.champion_snapshots[i].duplicate();
                proof {
                    assert(first_match(r.champion_snapshots@, champion_is(champion_id@)) == Some(c));
                }
                return Some(c);
            }
            i = i + 1;
        }
        proof {
            lemma_find_first_none(r.champion_snapshots@, champion_is(champion_id@));
        }
        None
    }

    /// What the session's latest active turn holds at `(x, y)`: `None` when
    /// no turn is active, else the world object there, if any.
    pub fn world_object_at(&self, session_id: &str, x: u16, y: u16) -> (found: Option<Option<WorldObjectSnapshot>>)
        ensures
            found == match latest_runtime_spec(*self, session_id@) {
                Some(r) => Some(first_match(r.world_object_snapshots@, object_at(x, y))),
                None => None,
            },
    {
        let r = match self.latest_runtime(session_id) {
            Some(r) => r,
            None => return None,
        };
        let mut i: usize = 0;
        while i < r.world_object_snapshots.len()
            invariant
                i <= r.world_object_snapshots@.len(),
                latest_runtime_spec(*self, session_id@) == Some(*r),
                forall|j: int| 0 <= j < i ==> !(#[trigger] object_at(x, y)(r.world_object_snapshots@[j])),
            decreases r.world_object_snapshots@.len() - i,
        {
            if r.world_object_snapshots[i].x == x && r.world_object_snapshots[i].y == y {
                proof {
                    lemma_find_first_is(r.world_object_snapshots@, object_at(x, y), i as int);
                }
                let c = r.world_object_snapshots[i].duplicate();
                proof {
                    assert(first_match(r.world_object_snapshots@, object_at(x, y)) == Some(c));
                }
                return Some(Some(c));
            }
            i = i + 1;
        }
        proof {
            lemma_find_first_none(r.world_object_snapshots@, object_at(x, y));
        }
        Some(None)
    }

    /// A world object, by id, as the session's latest active turn holds it.
    pub fn world_object_by_id(&self, session_id: &str, object_id: &str) -> (found: Option<WorldObjectSnapshot>)
        ensures
            found == match latest_runtime_spec(*self, session_id@) {
                Some(r) => first_match(r.world_object_snapshots@, object_is(object_id@)),
                None => None,
            },
    {
        let r = match self.latest_runtime(session_id) {
            Some(r) => r,
            None => return None,
        };
        let mut i: usize = 0;
        while i < r.world_object_snapshots.len()
            invariant
                i <= r.world_object_snapshots@.len(),
                latest_runtime_spec(*self, session_id@) == Some(*r),
                forall|j: int| 0 <= j < i ==> !(#[trigger] object_is(object_id@)(r.world_object_snapshots@[j])),
            decreases r.world_object_snapshots@.len() - i,
        {
            if str_eq(r.world_object_snapshots[i].object_id.as_str(), object_id) {
                proof {
                    lemma_find_first_is(r.world_object_snapshots@, object_is(object_id@), i as int);
                }
                let c = r.world_object_snapshots[i].duplicate();
                proof {
                    assert(first_match(r.world_object_snapshots@, object_is(object_id@)) == Some(c));
                }
                return Some(c);
            }
            i = i + 1;
        }
        proof {
            lemma_find_first_none(r.world_object_snapshots@, object_is(object_id@));
        }
        None
    }

    /// The world objects of the session's latest active turn (none when no
    /// turn is active).
    pub fn world_object_snapshots(&self, session_id: &str) -> (objects: Vec<WorldObjectSnapshot>)
        ensures
            objects@ == match latest_runtime_spec(*self, session_id@) {
                Some(r) => r.world_object_snapshots@,
                None => Seq::empty(),
            },
    {
        match self.latest_runtime(session_id) {
            Some(r) => dup_vec(&r.world_object_snapshots),
            None => Vec::new(),
        }
    }

    /// A participant as the session's latest active turn holds it.
    pub fn participant_snapshot(&self, session_id: &str, participant_id: &str) -> (found: Option<SessionTurnParticipant>)
        ensures
            found == match latest_runtime_spec(*self, session_id@) {
                Some(r) => first_match(r.participants@, participant_is(participant_id@)),
                None => None,
            },
    {
        let r = match self.latest_runtime(session_id) {
            Some(r) => r,
            None => return None,
        };
        let mut i: usize = 0;
        while i < r.participants.len()
            invariant
                i <= r.participants@.len(),
                latest_runtime_spec(*self, session_id@) == Some(*r),
                forall|j: int| 0 <= j < i ==> !(#[trigger] participant_is(participant_id@)(r.participants@[j])),
            decreases r.participants@.len() - i,
        {
            if str_eq(r.participants[i].participant_id.as_str(), participant_id) {
                proof {
                    lemma_find_first_is(r.participants@, participant_is(participant_id@), i as int);
                }
                let c = r.participants[i].duplicate();
                proof {
                    assert(first_match(r.participants@, participant_is(participant_id@)) == Some(c));
                }
                return Some(c);
            }
            i = i + 1;
        }
        proof {
            lemma_find_first_none(r.participants@, participant_is(participant_id@));
        }
        None
    }
}

/// A spell slug in a listing of slugs, which is in character order.
pub struct SlugEntry {
    pub slug: String,
}

impl Duplicate for SlugEntry {
    fn duplicate(&self) -> (copy: Self) {
        SlugEntry { slug: self.slug.clone() }
    }
}

impl GridEntry for SlugEntry {
    open spec fn grid_key(&self) -> GridKey {
        GridKey { y: 0, x: 0, kind: self.slug@, id: Seq::empty() }
    }

    fn grid_position(&self) -> (pos: (u16, u16)) {
        (0, 0)
    }

    fn grid_kind(&self) -> (kind: &str) {
        self.slug.as_str()
    }

    fn grid_id(&self) -> (id: &str) {
        proof {
            reveal_strlit("");
        }
        ""
    }
}

/// The slugs of the spells of `champion_id` that have one, in spell order.
pub open spec fn spell_slug_entries(spells: Seq<RuntimeChampionSpell>, champion_id: Seq<char>) -> Seq<SlugEntry>
    decreases spells.len(),
{
    if spells.len() == 0 {
        Seq::empty()
    } else {
        let before = spell_slug_entries(spells.drop_last(), champion_id);
        let s = spells.last();
        if s.champion_id@ == champion_id && s.spell_slug is Some {
            before.push(SlugEntry { slug: s.spell_slug->0 })
        } else {
            before
        }
    }
}

/// `slugs` is what `r` answers for the spells of `champion_id`: none
/// unless it holds the champion's whole spellbook, else the slugs of the
/// champion's spells in character order.
pub open spec fn spell_slugs_are(r: SessionTurnRuntime, champion_id: Seq<char>, slugs: Option<Vec<String>>) -> bool {
    match slugs {
        None => !strings_contain(r.complete_champion_spellbooks@, champion_id),
        Some(v) => {
            let sorted = grid_sorted(spell_slug_entries(r.champion_spell_snapshots@, champion_id));
            &&& strings_contain(r.complete_champion_spellbooks@, champion_id)
            &&& v@.len() == sorted.len()
            &&& forall|k: int| 0 <= k < sorted.len() ==> #[trigger] v@[k] == sorted[k].slug
        },
    }
}

impl SessionTurnRuntime {
    /// The slugs of a champion's spells, sorted, when this turn holds its
    /// whole spellbook; `None` otherwise.
    pub fn champion_spell_slugs_if_complete(&self, champion_id: &str) -> (slugs: Option<Vec<String>>)
        ensures
            spell_slugs_are(*self, champion_id@, slugs),
    {
        let mut complete = false;
        let mut j: usize = 0;
        while j < self.complete_champion_spellbooks.len()
            invariant
                j <= self.complete_champion_spellbooks@.len(),
                complete == exists|k: int| 0 <= k < j && #[trigger] self.complete_champion_spellbooks@[k]@ == champion_id@,
            decreases self.complete_champion_spellbooks@.len() - j,
        {
            if str_eq(self.complete_champion_spellbooks[j].as_str(), champion_id) {
                complete = true;
            }
            j = j + 1;
        }
        if !complete {
            return None;
        }
        let mut found: Vec<SlugEntry> = Vec::new();
        let mut i: usize = 0;
        while i < self.champion_spell_snapshots.len()
            invariant
                i <= self.champion_spell_snapshots@.len(),
                found@ == spell_slug_entries(self.champion_spell_snapshots@.take(i as int), champion_id@),
            decreases self.champion_spell_snapshots@.len() - i,
        {
            proof {
                assert(self.champion_spell_snapshots@.take(i + 1).drop_last() =~= self.champion_spell_snapshots@.take(i as int));
                assert(self.champion_spell_snapshots@.take(i + 1).last() == self.champion_spell_snapshots@[i as int]);
            }
            let s = &self.champion_spell_snapshots[i];
            if str_eq(s.champion_id.as_str(), champion_id) {
                match &s.spell_slug {
                    Some(slug) => found.push(SlugEntry { slug: slug.clone() }),
                    None => {},
                }
            }
            i = i + 1;
        }
        proof {
            assert(self.champion_spell_snapshots@.take(self.champion_spell_snapshots@.len() as int) =~= self.champion_spell_snapshots@);
        }
        let sorted = grid_sort(&found);
        let mut out: Vec<String> = Vec::new();
        let mut k: usize = 0;
        while k < sorted.len()
            invariant
                k <= sorted@.len(),
                out@.len() == k,
                forall|m: int| 0 <= m < k ==> #[trigger] out@[m] == sorted@[m].slug,
            decreases sorted@.len() - k,
        {
            out.push(sorted[k].slug.clone());
            k = k + 1;
        }
        Some(out)
    }
}

/// Whether spell `slug` of champion `champion_id` is among `spells`.
pub open spec fn spell_learned(spells: Seq<RuntimeChampionSpell>, champion_id: Seq<char>, slug: Seq<char>) -> bool {
    exists|k: int| 0 <= k < spells.len() && #[trigger] spells[k].champion_id@ == champion_id
        && spells[k].spell_slug.deep_view() == Some(slug)
}

impl RuntimeStore {
    /// The sorted spell slugs of a champion when the turn holds its whole
    /// spellbook; `None` when the turn is not active or does not.
    pub fn runtime_champion_spell_slugs_if_complete(&self, session_id: &str, turn_number: u32, champion_id: &str) -> (slugs: Option<Vec<String>>)
        requires
            self.wf(),
        ensures
            match self.lookup(crate::text::runtime_key_spec(session_id@, turn_number as nat)) {
                None => slugs is None,
                Some(r) => spell_slugs_are(r, champion_id@, slugs),
            },
    {
        match self.get_runtime(session_id, turn_number) {
            Some(r) => r.champion_spell_slugs_if_complete(champion_id),
            None => None,
        }
    }

    /// Whether some active turn of the session holds spell `slug` as learned
    /// by champion `champion_id`.
    pub fn runtime_learned_champion_spell(&self, session_id: &str, champion_id: &str, slug: &str) -> (learned: bool)
        ensures
            learned == exists|i: int| 0 <= i < self.runtimes@.len() && (#[trigger] self.runtimes@[i]).session_id@ == session_id@
                && spell_learned(self.runtimes@[i].champion_spell_snapshots@, champion_id@, slug@),
    {
        let mut i: usize = 0;
        while i < self.runtimes.len()
            invariant
                i <= self.runtimes@.len(),
                forall|m: int| 0 <= m < i ==> !((#[trigger] self.runtimes@[m]).session_id@ == session_id@
                    && spell_learned(self.runtimes@[m].champion_spell_snapshots@, champion_id@, slug@)),
            decreases self.runtimes@.len() - i,
        {
            let r = &self.runtimes[i];
            if str_eq(r.session_id.as_str(), session_id) {
                let mut k: usize = 0;
                while k < r.champion_spell_snapshots.len()
                    invariant
                        k <= r.champion_spell_snapshots@.len(),
                        i < self.runtimes@.len(),
                        *r == self.runtimes@[i as int],
                        r.session_id@ == session_id@,
                        forall|m: int| 0 <= m < k ==> !((#[trigger] r.champion_spell_snapshots@[m]).champion_id@ == champion_id@
                            && r.champion_spell_snapshots@[m].spell_slug.deep_view() == Some(slug@)),
                    decreases r.champion_spell_snapshots@.len() - k,
                {
                    let s = &r.champion_spell_snapshots[k];
                    let same_slug = match &s.spell_slug {
                        Some(t) => str_eq(t.as_str(), slug),
                        None => false,
                    };
                    if str_eq(s.champion_id.as_str(), champion_id) && same_slug {
                        proof {
                            assert(spell_learned(r.champion_spell_snapshots@, champion_id@, slug@));
                        }
                        return true;
                    }
                    k = k + 1;
                }
            }
            i = i + 1;
        }
        false
    }
}

} // verus!
