//! What stops a champion's next micro-step: an exhausted movement budget, a
//! guarded object, a champion in the way, or a town; and the outcome and
//! reason recorded for each.
use vstd::prelude::*;
use crate::seqs::{find_first, lemma_filter_take_step, lemma_find_first_is, lemma_find_first_none};
use crate::text::str_eq;

verus! {

/// The champion occupying the target cell, as the movement step sees it.
pub struct ChampionCellFacts {
    /// The cell blocks movement.
    pub blocking: bool,
    /// The occupant is the moving champion itself.
    pub is_mover: bool,
    /// The participant owning the occupant, when it is known: from the
    /// occupant's own pending movement, else from its stored row.
    pub occupant_participant_id: Option<String>,
}

/// The town occupying the target cell.
pub struct TownCellFacts {
    pub blocking: bool,
    pub owner_participant_id: Option<String>,
}

/// What stops a micro-step, if anything.
#[derive(Clone, Copy, Debug, PartialEq, Eq, Structural)]
pub enum StepBlock {
    BudgetExhausted,
    GuardedObject,
    ChampionBlocker { enemy: bool },
    Town { enemy: bool },
    Clear,
}

/// Whether an optional participant is someone other than `mover`.
pub open spec fn other_participant(p: Option<String>, mover: Seq<char>) -> bool {
    match p {
        Some(q) => q@ != mover,
        None => false,
    }
}

/// What stops the step, checked in order: a cost above the movement left,
/// a target object guarded by a neutral army, a blocking champion other
/// than the mover (an enemy when owned by another participant), a blocking
/// town (an enemy town when owned by another participant).
pub open spec fn classify_step_spec(
    movement_cost: u16,
    remaining_before: u16,
    guarded_object: bool,
    champion: Option<ChampionCellFacts>,
    town: Option<TownCellFacts>,
    mover_participant_id: Seq<char>,
) -> StepBlock {
    if movement_cost > remaining_before {
        StepBlock::BudgetExhausted
    } else if guarded_object {
        StepBlock::GuardedObject
    } else if champion matches Some(c) && c.blocking && !c.is_mover {
        StepBlock::ChampionBlocker { enemy: other_participant(champion->0.occupant_participant_id, mover_participant_id) }
    } else if town matches Some(t) && t.blocking {
        StepBlock::Town { enemy: other_participant(town->0.owner_participant_id, mover_participant_id) }
    } else {
        StepBlock::Clear
    }
}

/// Whether an optional participant is someone other than `mover`.
fn is_other_participant(p: &Option<String>, mover: &str) -> (other: bool)
    ensures
        other == other_participant(*p, mover@),
{
    match p {
        Some(q) => !str_eq(q.as_str(), mover),
        None => false,
    }
}

/// What stops a champion's next micro-step (see `classify_step_spec`).
pub fn classify_step(
    movement_cost: u16,
    remaining_before: u16,
    guarded_object: bool,
    champion: &Option<ChampionCellFacts>,
    town: &Option<TownCellFacts>,
    mover_participant_id: &str,
) -> (block: StepBlock)
    ensures
        block == classify_step_spec(movement_cost, remaining_before, guarded_object, *champion, *town, mover_participant_id@),
{
    if movement_cost > remaining_before {
        return StepBlock::BudgetExhausted;
    }
    if guarded_object {
        return StepBlock::GuardedObject;
    }
    match champion {
        Some(c) => {
            if c.blocking && !c.is_mover {
                return StepBlock::ChampionBlocker { enemy: is_other_participant(&c.occupant_participant_id, mover_participant_id) };
            }
        },
        None => {},
    }
    match town {
        Some(t) => {
            if t.blocking {
                return StepBlock::Town { enemy: is_other_participant(&t.owner_participant_id, mover_participant_id) };
            }
        },
        None => {},
    }
    StepBlock::Clear
}

/// The movement outcome recorded for a stopped step.
pub open spec fn step_outcome_spec(block: StepBlock) -> Seq<char> {
    match block {
        StepBlock::BudgetExhausted => "stopped_budget_exhausted"@,
        StepBlock::GuardedObject => "started_neutral_battle"@,
        StepBlock::ChampionBlocker { enemy } => if enemy { "started_champion_battle"@ } else { "stopped_champion_blocker"@ },
        StepBlock::Town { enemy } => if enemy { "started_town_battle"@ } else { "stopped_town_interaction"@ },
        StepBlock::Clear => "moved"@,
    }
}

/// The movement outcome recorded for a step.
pub fn step_outcome(block: StepBlock) -> (outcome: &'static str)
    ensures
        outcome@ == step_outcome_spec(block),
{
    match block {
        StepBlock::BudgetExhausted => "stopped_budget_exhausted",
        StepBlock::GuardedObject => "started_neutral_battle",
        StepBlock::ChampionBlocker { enemy } => if enemy { "started_champion_battle" } else { "stopped_champion_blocker" },
        StepBlock::Town { enemy } => if enemy { "started_town_battle" } else { "stopped_town_interaction" },
        StepBlock::Clear => "moved",
    }
}

/// The reason given in the path stop of a stopped step (none for a spent
/// budget or a clear step).
pub open spec fn stop_reason_of_spec(block: StepBlock) -> Option<Seq<char>> {
    match block {
        StepBlock::GuardedObject => Some("guarded_object"@),
        StepBlock::ChampionBlocker { enemy } => Some(if enemy { "enemy_champion_blocker"@ } else { "friendly_champion_blocker"@ }),
        StepBlock::Town { enemy } => Some(if enemy { "enemy_town"@ } else { "town_interaction"@ }),
        _ => None,
    }
}

/// The reason given in the path stop of a stopped step.
pub fn stop_reason_of(block: StepBlock) -> (reason: Option<&'static str>)
    ensures
        match reason {
            Some(r) => stop_reason_of_spec(block) == Some(r@),
            None => stop_reason_of_spec(block) is None,
        },
{
    match block {
        StepBlock::GuardedObject => Some("guarded_object"),
        StepBlock::ChampionBlocker { enemy } => Some(if enemy { "enemy_champion_blocker" } else { "friendly_champion_blocker" }),
        StepBlock::Town { enemy } => Some(if enemy { "enemy_town" } else { "town_interaction" }),
        _ => None,
    }
}

/// Whether resolving the micro-step must pause after this block: a battle
/// against an enemy town ends the pass.
pub fn step_ends_pass(block: StepBlock) -> (ends: bool)
    ensures
        ends == (block == StepBlock::Town { enemy: true }),
{
    match block {
        StepBlock::Town { enemy } => enemy,
        _ => false,
    }
}

/// Whether `k` is still in the step after `key` and `also_remove` left it.
pub open spec fn stays_after(key: usize, also_remove: Option<usize>) -> spec_fn(usize) -> bool {
    |k: usize| k != key && also_remove != Some(k)
}

/// Whether `k` is among the candidates still in the step.
pub open spec fn still_active(active: Seq<usize>) -> spec_fn(usize) -> bool {
    |k: usize| active.contains(k)
}

/// Stopping the blocked candidates of one micro-step, in candidate order:
/// `keys` are the candidates (by pending index) in that order, `active`
/// those still in the step, and `position` how far along `keys` the pass
/// has come.
pub struct BlockerPass {
    pub keys: Vec<usize>,
    pub active: Vec<usize>,
    pub position: usize,
}

impl BlockerPass {
    /// A pass over the candidates `keys`, all in the step.
    pub fn new(keys: Vec<usize>) -> (pass: Self)
        ensures
            pass.keys@ == keys@,
            pass.active@ == keys@,
            pass.position == 0,
    {
        let active = copy_keys(&keys);
        BlockerPass { keys, active, position: 0 }
    }

    /// The next candidate still in the step, if any; the candidates
    /// skipped on the way (those that already left) are passed over.
    pub fn next_candidate(&mut self) -> (next: Option<usize>)
        requires
            old(self).position <= old(self).keys@.len(),
        ensures
            final(self).keys@ == old(self).keys@,
            final(self).active@ == old(self).active@,
            final(self).position <= final(self).keys@.len(),
            ({
                let rest = old(self).keys@.skip(old(self).position as int);
                let f = find_first(rest, still_active(old(self).active@));
                if f >= 0 {
                    &&& next == Some(rest[f])
                    &&& final(self).position == old(self).position + f + 1
                } else {
                    &&& next is None
                    &&& final(self).position == old(self).keys@.len()
                }
            }),
    {
        let ghost rest = self.keys@.skip(self.position as int);
        let ghost start = self.position as int;
        let n = self.keys.len();
        while self.position < n
            invariant
                n == self.keys@.len(),
                self.keys@ == old(self).keys@,
                self.active@ == old(self).active@,
                start == old(self).position,
                rest == self.keys@.skip(start),
                start <= self.position <= n,
                forall|j: int| 0 <= j < self.position - start ==> !still_active(self.active@)(#[trigger] rest[j]),
            decreases n - self.position,
        {
            let k = self.keys[self.position];
            proof {
                assert(rest[self.position - start] == k);
            }
            if contains_key_usize(&self.active, k) {
                proof {
                    lemma_find_first_is(rest, still_active(self.active@), self.position - start);
                }
                self.position = self.position + 1;
                return Some(k);
            }
            self.position = self.position + 1;
        }
        proof {
            lemma_find_first_none(rest, still_active(self.active@));
        }
        None
    }

    /// Settles candidate `key` after its step was classified as `block`
    /// and, when blocked, handled: a clear step keeps every candidate and
    /// the pass goes on. A blocked candidate leaves the step, with the
    /// moving blocker `also_remove` that the handling stopped too, and the
    /// pass goes on only if the handling said so (`go_on`) and the block
    /// does not end the pass (an enemy town).
    pub fn settle(&mut self, key: usize, block: StepBlock, go_on: bool, also_remove: Option<usize>) -> (go_on_pass: bool)
        ensures
            final(self).keys@ == old(self).keys@,
            final(self).position == old(self).position,
            block == StepBlock::Clear ==> final(self).active@ == old(self).active@ && go_on_pass,
            block != StepBlock::Clear ==> {
                &&& final(self).active@ == old(self).active@.filter(stays_after(key, also_remove))
                &&& go_on_pass == (go_on && block != (StepBlock::Town { enemy: true }))
            },
    {
        if block == StepBlock::Clear {
            return true;
        }
        let ghost a = self.active@;
        let mut kept: Vec<usize> = Vec::new();
        let mut i: usize = 0;
        proof {
            assert(a.take(0) =~= Seq::<usize>::empty());
            reveal(Seq::filter);
        }
        while i < self.active.len()
            invariant
                self.active@ == a,
                i <= a.len(),
                kept@ == a.take(i as int).filter(stays_after(key, also_remove)),
            decreases a.len() - i,
        {
            let k = self.active[i];
            proof {
                lemma_filter_take_step(a, stays_after(key, also_remove), i as int);
            }
            let stays = k != key && match also_remove {
                Some(o) => o != k,
                None => true,
            };
            if stays {
                kept.push(k);
            }
            i = i + 1;
        }
        proof {
            assert(a.take(a.len() as int) =~= a);
        }
        self.active = kept;
        go_on && !step_ends_pass(block)
    }
}

/// A copy of `v`.
fn copy_keys(v: &Vec<usize>) -> (out: Vec<usize>)
    ensures
        out@ == v@,
{
    let mut out: Vec<usize> = Vec::new();
    let mut i: usize = 0;
    while i < v.len()
        invariant
            i <= v@.len(),
            out@ == v@.take(i as int),
        decreases v@.len() - i,
    {
        out.push(v[i]);
        proof {
            assert(v@.take(i + 1) =~= v@.take(i as int).push(v@[i as int]));
        }
        i = i + 1;
    }
    proof {
        assert(v@.take(v@.len() as int) =~= v@);
    }
    out
}

/// Whether `k` occurs in `v`.
fn contains_key_usize(v: &Vec<usize>, k: usize) -> (found: bool)
    ensures
        found == v@.contains(k),
{
    let mut i: usize = 0;
    while i < v.len()
        invariant
            i <= v@.len(),
            forall|j: int| 0 <= j < i ==> v@[j] != k,
        decreases v@.len() - i,
    {
        if v[i] == k {
            proof {
                assert(v@[i as int] == k);
            }
            return true;
        }
        i = i + 1;
    }
    false
}

/// Law: a step is clear exactly when it is affordable, its target holds no
/// guarded object, no blocking champion other than the mover and no
/// blocking town; an unaffordable step is out of budget whatever the
/// target holds; a blocking champion of the mover's own participant is a
/// friendly blocker and one of another participant an enemy.
pub proof fn lemma_step_classification(
    movement_cost: u16,
    remaining_before: u16,
    guarded_object: bool,
    champion: Option<ChampionCellFacts>,
    town: Option<TownCellFacts>,
    mover: Seq<char>,
)
    ensures
        (classify_step_spec(movement_cost, remaining_before, guarded_object, champion, town, mover) == StepBlock::Clear)
            <==> (movement_cost <= remaining_before && !guarded_object
                && !(champion matches Some(c) && c.blocking && !c.is_mover)
                && !(town matches Some(t) && t.blocking)),
        movement_cost > remaining_before ==> classify_step_spec(movement_cost, remaining_before, guarded_object, champion, town, mover)
            == StepBlock::BudgetExhausted,
        movement_cost <= remaining_before && !guarded_object && (champion matches Some(c) && c.blocking && !c.is_mover
            && (c.occupant_participant_id matches Some(p) && p@ == mover)) ==> classify_step_spec(
            movement_cost, remaining_before, guarded_object, champion, town, mover,
        ) == (StepBlock::ChampionBlocker { enemy: false }),
        movement_cost <= remaining_before && !guarded_object && (champion matches Some(c) && c.blocking && !c.is_mover
            && (c.occupant_participant_id matches Some(p) && p@ != mover)) ==> classify_step_spec(
            movement_cost, remaining_before, guarded_object, champion, town, mover,
        ) == (StepBlock::ChampionBlocker { enemy: true }),
{
}

} // verus!
