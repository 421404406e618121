//! The micro-step loop of movement resolution: which pending moves take the
//! next step and in which order, how far one sync goes before it parks, how
//! a committed step moves a champion, and when a move is finished.
use vstd::prelude::*;
use crate::dup::Duplicate;
use crate::listing::{grid_sort, grid_sorted, lemma_sorted_entries_from, GridEntry, GridKey};
use crate::path_text::MoveCoord;
use crate::step_rules::ChampionCellFacts;
use crate::text::str_eq;

verus! {

/// Micro-steps one sync resolves before it parks the rest.
pub const CANISTER_MOVEMENT_MICROSTEPS_PER_SYNC: u16 = 1;

/// What the loop does with the candidates of the current step.
#[derive(Clone, Copy, Debug, PartialEq, Eq, Structural)]
pub enum MicrostepAction {
    /// No move takes this step: the pass is over.
    Finish,
    /// The sync's budget of micro-steps is spent: park what is left.
    Park,
    /// Resolve this step.
    Resolve,
}

/// Where the loop stands: the step it is at and how many it resolved.
pub struct MicrostepRun {
    pub step_index: u16,
    pub processed: u16,
}

impl MicrostepRun {
    /// A loop at its first step.
    pub fn new() -> (run: Self)
        ensures
            run.step_index == 0,
            run.processed == 0,
    {
        MicrostepRun { step_index: 0, processed: 0 }
    }

    /// What to do at the current step, given whether any move takes it.
    pub fn next_action(&self, no_candidates: bool) -> (action: MicrostepAction)
        ensures
            action == if no_candidates {
                MicrostepAction::Finish
            } else if self.processed >= CANISTER_MOVEMENT_MICROSTEPS_PER_SYNC {
                MicrostepAction::Park
            } else {
                MicrostepAction::Resolve
            },
    {
        if no_candidates {
            MicrostepAction::Finish
        } else if self.processed >= CANISTER_MOVEMENT_MICROSTEPS_PER_SYNC {
            MicrostepAction::Park
        } else {
            MicrostepAction::Resolve
        }
    }

    /// Moves on to the next step once this one is resolved (saturating).
    pub fn advance(&mut self)
        ensures
            final(self).step_index == if old(self).step_index == u16::MAX { u16::MAX } else { (old(self).step_index + 1) as u16 },
            final(self).processed == if old(self).processed == u16::MAX { u16::MAX } else { (old(self).processed + 1) as u16 },
    {
        self.step_index = self.step_index.saturating_add(1);
        self.processed = self.processed.saturating_add(1);
    }
}

/// Whether a pending move not yet resolved is resolved when the pass ends:
/// its whole path lies within the steps taken.
pub fn resolved_at_end(resolved: bool, path_len: usize, step_index: u16) -> (done: bool)
    ensures
        done == (!resolved && path_len <= step_index),
{
    !resolved && path_len <= step_index as usize
}

/// What the choice of the next step reads of a pending move.
pub struct PendingStep {
    pub champion_id: String,
    pub resolved: bool,
    pub champion_active: bool,
    pub path_len: usize,
}

/// A pending move that takes the step, by its place among the pending moves.
pub struct StepSlot {
    pub pending_index: usize,
    pub champion_id: String,
}

impl Duplicate for StepSlot {
    fn duplicate(&self) -> (copy: Self) {
        StepSlot { pending_index: self.pending_index, champion_id: self.champion_id.clone() }
    }
}

/// Steps are taken in the order of the champions' ids; moves of the same
/// champion keep their order.
impl GridEntry for StepSlot {
    open spec fn grid_key(&self) -> GridKey {
        GridKey { y: 0, x: 0, kind: self.champion_id@, id: Seq::empty() }
    }

    fn grid_position(&self) -> (pos: (u16, u16)) {
        (0, 0)
    }

    fn grid_kind(&self) -> (kind: &str) {
        self.champion_id.as_str()
    }

    fn grid_id(&self) -> (id: &str) {
        proof {
            reveal_strlit("");
        }
        ""
    }
}

/// Whether the pending move takes step `step_index`: not resolved, its
/// champion active, its path that long.
pub open spec fn takes_step(p: PendingStep, step_index: u16) -> bool {
    !p.resolved && p.champion_active && step_index < p.path_len
}

/// The pending moves that take step `step_index`, in pending order.
pub open spec fn stepping(pending: Seq<PendingStep>, step_index: u16) -> Seq<StepSlot>
    decreases pending.len(),
{
    if pending.len() == 0 {
        Seq::empty()
    } else {
        let before = stepping(pending.drop_last(), step_index);
        if takes_step(pending.last(), step_index) {
            before.push(StepSlot { pending_index: (pending.len() - 1) as usize, champion_id: pending.last().champion_id })
        } else {
            before
        }
    }
}

proof fn lemma_stepping_in_range(pending: Seq<PendingStep>, step_index: u16)
    requires
        pending.len() <= usize::MAX,
    ensures
        forall|k: int| 0 <= k < stepping(pending, step_index).len() ==> {
            let slot = #[trigger] stepping(pending, step_index)[k];
            &&& slot.pending_index < pending.len()
            &&& takes_step(pending[slot.pending_index as int], step_index)
        },
    decreases pending.len(),
{
    if pending.len() > 0 {
        let d = pending.drop_last();
        lemma_stepping_in_range(d, step_index);
        let before = stepping(d, step_index);
        let all = stepping(pending, step_index);
        assert forall|k: int| 0 <= k < all.len() implies {
            let slot = #[trigger] all[k];
            &&& slot.pending_index < pending.len()
            &&& takes_step(pending[slot.pending_index as int], step_index)
        } by {
            if k < before.len() {
                assert(all[k] == before[k]);
                assert(d[before[k].pending_index as int] == pending[before[k].pending_index as int]);
            } else {
                assert(all[k].pending_index == pending.len() - 1);
                assert(pending[pending.len() - 1] == pending.last());
            }
        }
    }
}

/// The pending moves that take step `step_index`, ordered by champion id
/// (moves of one champion in pending order); each names its pending move,
/// which takes the step.
pub fn stepping_moves(pending: &Vec<PendingStep>, step_index: u16) -> (slots: Vec<StepSlot>)
    ensures
        slots@ == grid_sorted(stepping(pending@, step_index)),
        forall|k: int| 0 <= k < slots@.len() ==> (#[trigger] slots@[k]).pending_index < pending@.len()
            && takes_step(pending@[slots@[k].pending_index as int], step_index),
{
    let mut found: Vec<StepSlot> = Vec::new();
    let mut i: usize = 0;
    while i < pending.len()
        invariant
            i <= pending@.len(),
            found@ == stepping(pending@.take(i as int), step_index),
        decreases pending@.len() - i,
    {
        proof {
            assert(pending@.take(i + 1).drop_last() =~= pending@.take(i as int));
            assert(pending@.take(i + 1).last() == pending@[i as int]);
        }
        let p = &pending[i];
        if !p.resolved && p.champion_active && (step_index as usize) < p.path_len {
            found.push(StepSlot { pending_index: i, champion_id: p.champion_id.clone() });
        }
        i = i + 1;
    }
    proof {
        assert(pending@.take(pending@.len() as int) =~= pending@);
        lemma_stepping_in_range(pending@, step_index);
        lemma_sorted_entries_from(found@);
    }
    let slots = grid_sort(&found);
    proof {
        assert forall|k: int| 0 <= k < slots@.len() implies (#[trigger] slots@[k]).pending_index < pending@.len()
            && takes_step(pending@[slots@[k].pending_index as int], step_index) by {
            assert(found@.contains(slots@[k]));
        }
    }
    slots
}

/// The value of a hexadecimal digit, if `c` is one.
pub open spec fn hex_value(c: char) -> Option<u64> {
    if '0' <= c && c <= '9' {
        Some((c as u64 - '0' as u64) as u64)
    } else if 'a' <= c && c <= 'f' {
        Some((c as u64 - 'a' as u64 + 10) as u64)
    } else if 'A' <= c && c <= 'F' {
        Some((c as u64 - 'A' as u64 + 10) as u64)
    } else {
        None
    }
}

/// The number the hexadecimal digits of `s` spell, if they all are digits.
pub open spec fn hex_number(s: Seq<char>) -> Option<nat>
    decreases s.len(),
{
    if s.len() == 0 {
        Some(0)
    } else {
        match (hex_number(s.drop_last()), hex_value(s.last())) {
            (Some(high), Some(low)) => Some(high * 16 + low as nat),
            _ => None,
        }
    }
}

/// The tie break read from a hash: its first sixteen characters as a
/// hexadecimal number, or 0 when the hash is shorter or they are not all
/// hexadecimal digits.
pub open spec fn tie_break_spec(hash: Seq<char>) -> u64 {
    if hash.len() < 16 {
        0
    } else {
        match hex_number(hash.take(16)) {
            Some(n) => n as u64,
            None => 0,
        }
    }
}

/// `16` to the power `n`.
pub open spec fn pow16(n: nat) -> nat
    decreases n,
{
    if n == 0 { 1 } else { 16 * pow16((n - 1) as nat) }
}

proof fn lemma_hex_number_bound(s: Seq<char>)
    ensures
        hex_number(s) matches Some(n) ==> n < pow16(s.len()),
    decreases s.len(),
{
    if s.len() > 0 {
        lemma_hex_number_bound(s.drop_last());
        if let Some(high) = hex_number(s.drop_last()) {
            if let Some(low) = hex_value(s.last()) {
                let p = pow16((s.len() - 1) as nat);
                assert(high * 16 + low < p * 16) by (nonlinear_arith)
                    requires
                        high < p,
                        low < 16,
                ;
            }
        }
    }
}

proof fn lemma_pow16_mono(m: nat, n: nat)
    requires
        m <= n,
    ensures
        pow16(m) <= pow16(n),
    decreases n - m,
{
    if m < n {
        lemma_pow16_mono(m, (n - 1) as nat);
    }
}

proof fn lemma_pow16_16()
    ensures
        pow16(16) == 0x1_0000_0000_0000_0000,
{
    reveal_with_fuel(pow16, 17);
}

fn hex_digit(c: char) -> (v: Option<u64>)
    ensures
        v == hex_value(c),
{
    if '0' <= c && c <= '9' {
        Some((c as u64) - ('0' as u64))
    } else if 'a' <= c && c <= 'f' {
        Some((c as u64) - ('a' as u64) + 10)
    } else if 'A' <= c && c <= 'F' {
        Some((c as u64) - ('A' as u64) + 10)
    } else {
        None
    }
}

/// Reads the tie break of a tile conflict from a hash.
pub fn tie_break_from_hash(hash: &str) -> (tie_break: u64)
    ensures
        tie_break == tie_break_spec(hash@),
{
    let chars = crate::text::chars_of(hash);
    if chars.len() < 16 {
        return 0;
    }
    let mut value: u64 = 0;
    let mut i: usize = 0;
    proof {
        assert(chars@.take(0) =~= Seq::<char>::empty());
    }
    while i < 16
        invariant
            chars@ == hash@,
            16 <= chars@.len(),
            i <= 16,
            hex_number(chars@.take(i as int)) == Some(value as nat),
            value < pow16(i as nat),
        decreases 16 - i,
    {
        proof {
            assert(chars@.take(i + 1).drop_last() =~= chars@.take(i as int));
            assert(chars@.take(i + 1).last() == chars@[i as int]);
        }
        match hex_digit(chars[i]) {
            Some(d) => {
                proof {
                    lemma_hex_number_bound(chars@.take(i + 1));
                    lemma_pow16_mono((i + 1) as nat, 16);
                    lemma_pow16_16();
                }
                value = value * 16 + d;
            },
            None => {
                proof {
                    assert(hex_number(chars@.take(i + 1)) is None);
                    lemma_hex_prefix_fails(chars@.take(16), i + 1);
                    assert(chars@.take(16).take(i + 1) =~= chars@.take(i + 1));
                }
                return 0;
            },
        }
        i = i + 1;
    }
    value
}

/// A prefix that is not all hexadecimal digits spoils the whole.
proof fn lemma_hex_prefix_fails(s: Seq<char>, k: int)
    requires
        0 <= k <= s.len(),
        hex_number(s.take(k)) is None,
    ensures
        hex_number(s) is None,
    decreases s.len() - k,
{
    if k < s.len() {
        assert(s.take(k + 1).drop_last() =~= s.take(k));
        lemma_hex_prefix_fails(s, k + 1);
    } else {
        assert(s.take(k) =~= s);
    }
}

/// The position and budget of a champion that a committed step changes.
pub struct ChampionMove {
    pub x: u16,
    pub y: u16,
    pub chunk_x: u16,
    pub chunk_y: u16,
    pub movement_remaining: u16,
    pub movement_turn: u32,
    pub last_command_id: Option<String>,
}

/// Commits a step from `remaining_before` movement at a cost of
/// `movement_cost` onto `to`, in turn `current_turn` by command
/// `command_id`, on a map of `chunk_size` cells per chunk: the champion
/// stands on `to`, in the chunk of `to`, with what is left of its movement
/// (never below zero) for this turn.
pub fn commit_step(
    champion: &mut ChampionMove,
    to: MoveCoord,
    remaining_before: u16,
    movement_cost: u16,
    chunk_size: u8,
    current_turn: u32,
    command_id: &str,
)
    requires
        chunk_size >= 1,
    ensures
        final(champion).x == to.x && final(champion).y == to.y,
        final(champion).chunk_x == to.x / (chunk_size as u16),
        final(champion).chunk_y == to.y / (chunk_size as u16),
        final(champion).movement_remaining == if movement_cost <= remaining_before { (remaining_before - movement_cost) as u16 } else { 0 },
        final(champion).movement_turn == current_turn,
        final(champion).last_command_id.deep_view() == Some(command_id@),
{
    champion.x = to.x;
    champion.y = to.y;
    champion.chunk_x = to.x / (chunk_size as u16);
    champion.chunk_y = to.y / (chunk_size as u16);
    champion.movement_remaining = remaining_before.saturating_sub(movement_cost);
    champion.movement_turn = current_turn;
    champion.last_command_id = Some(command_id.to_owned());
}

/// Whether a committed step ends its move: the object there stopped it, or
/// it was the path's last step.
pub fn step_finishes_move(stop_path: bool, path_len: usize, step_index: u16) -> (finished: bool)
    ensures
        finished == (stop_path || path_len <= step_index + 1),
{
    stop_path || path_len <= (step_index as usize) + 1
}

/// The outcome recorded for a move that a committed step ended.
pub fn finished_step_outcome(stop_path: bool) -> (outcome: &'static str)
    ensures
        outcome@ == if stop_path { "stopped_object_interaction"@ } else { "moved"@ },
{
    if stop_path { "stopped_object_interaction" } else { "moved" }
}

/// Whether the final cell of a single move holds a contact: a guarded
/// object, or a blocking champion other than the mover.
pub fn fast_final_contact(guarded_object: bool, champion: &Option<ChampionCellFacts>) -> (contact: bool)
    ensures
        contact == (guarded_object || (champion matches Some(c) && c.blocking && !c.is_mover)),
{
    guarded_object || match champion {
        Some(c) => c.blocking && !c.is_mover,
        None => false,
    }
}

/// How the fast path ends a single move.
#[derive(Clone, Copy, Debug, PartialEq, Eq, Structural)]
pub enum FastFinal {
    /// A blocking champion other than the mover stands on the final cell:
    /// the move stops short, in a battle when the blocker is an enemy.
    ChampionBlocker { enemy: bool },
    /// A guarded object lies on the final cell: the move stops short and a
    /// neutral battle starts.
    GuardedObject,
    /// The champion arrives at the final cell.
    Arrive,
}

/// How the fast path ends a single move, checked in order: a blocking
/// champion other than the mover (an enemy when its participant is not the
/// mover's), a guarded object, else arrival.
pub open spec fn fast_final_spec(guarded_object: bool, champion: Option<ChampionCellFacts>, blocker_participant_id: Seq<char>, mover_participant_id: Seq<char>) -> FastFinal {
    if champion matches Some(c) && c.blocking && !c.is_mover {
        FastFinal::ChampionBlocker { enemy: blocker_participant_id != mover_participant_id }
    } else if guarded_object {
        FastFinal::GuardedObject
    } else {
        FastFinal::Arrive
    }
}

/// How the fast path ends a single move; `blocker_participant_id` is the
/// participant of the blocking champion's row.
pub fn fast_final(
    guarded_object: bool,
    champion: &Option<ChampionCellFacts>,
    blocker_participant_id: &str,
    mover_participant_id: &str,
) -> (end: FastFinal)
    ensures
        end == fast_final_spec(guarded_object, *champion, blocker_participant_id@, mover_participant_id@),
{
    let blocked = match champion {
        Some(c) => c.blocking && !c.is_mover,
        None => false,
    };
    if blocked {
        FastFinal::ChampionBlocker { enemy: !str_eq(blocker_participant_id, mover_participant_id) }
    } else if guarded_object {
        FastFinal::GuardedObject
    } else {
        FastFinal::Arrive
    }
}

/// Where a single move that stops short of its final cell ends: the cell
/// before the final one (the start for a one-step path), after that many
/// steps, recorded as the path's last step (at most `u16::MAX`).
pub struct FastStop {
    pub steps: usize,
    pub coord: MoveCoord,
    pub step_index: u16,
}

/// The last step index of a path of `len` steps, capped at `u16::MAX`.
pub open spec fn last_step_index(len: nat) -> u16 {
    if len == 0 { 0 } else if len - 1 <= u16::MAX { (len - 1) as u16 } else { u16::MAX }
}

/// Where a single move that stops short of its final cell ends.
pub fn fast_stop_point(start: MoveCoord, path: &Vec<MoveCoord>) -> (stop: FastStop)
    ensures
        stop.steps == if path@.len() == 0 { 0 } else { path@.len() - 1 },
        stop.coord == if stop.steps == 0 { start } else { path@[stop.steps - 1] },
        stop.step_index == last_step_index(path@.len()),
{
    let steps: usize = if path.len() == 0 { 0 } else { path.len() - 1 };
    let coord = if steps == 0 { start } else { path[steps - 1] };
    let step_index: u16 = if path.len() == 0 {
        0
    } else if path.len() - 1 <= 65535 {
        (path.len() - 1) as u16
    } else {
        u16::MAX
    };
    FastStop { steps, coord, step_index }
}

/// Where a single move stops short of its final cell (see `fast_stop_point`).
pub open spec fn fast_stop_spec(start: MoveCoord, path: Seq<MoveCoord>) -> FastStop {
    let steps: nat = if path.len() == 0 { 0 } else { (path.len() - 1) as nat };
    FastStop {
        steps: steps as usize,
        coord: if steps == 0 { start } else { path[steps - 1] },
        step_index: last_step_index(path.len()),
    }
}

/// What the fast path does with the pending moves of a sync.
pub enum FastPathPlan {
    /// The fast path does not apply: the moves resolve step by step.
    Skip,
    /// The single move stops short of a blocking champion at `stop`; a
    /// battle starts when the blocker is an enemy.
    StopAtChampion { enemy: bool, stop: FastStop },
    /// The single move stops short of a guarded object at `stop`, and a
    /// neutral battle starts.
    StopAtGuardedObject { stop: FastStop },
    /// The single move arrives at `final_coord`, recorded as the path's
    /// last step.
    Arrive { final_coord: MoveCoord, step_index: u16 },
}

/// What the fast path does: only a single pending move whose path is
/// longer than four steps or ends at a contact takes it (see
/// `fast_path_applies`); it then ends as `fast_final_spec` says, stopping
/// short at `fast_stop_spec` or arriving at the final cell.
pub open spec fn fast_path_plan_spec(
    pending_count: nat,
    start: MoveCoord,
    path: Seq<MoveCoord>,
    guarded_object: bool,
    champion: Option<ChampionCellFacts>,
    blocker_participant_id: Seq<char>,
    mover_participant_id: Seq<char>,
) -> FastPathPlan {
    let contact = guarded_object || (champion matches Some(c) && c.blocking && !c.is_mover);
    if !(pending_count == 1 && (path.len() > 4 || contact)) {
        FastPathPlan::Skip
    } else {
        match fast_final_spec(guarded_object, champion, blocker_participant_id, mover_participant_id) {
            FastFinal::ChampionBlocker { enemy } => FastPathPlan::StopAtChampion { enemy, stop: fast_stop_spec(start, path) },
            FastFinal::GuardedObject => FastPathPlan::StopAtGuardedObject { stop: fast_stop_spec(start, path) },
            FastFinal::Arrive => FastPathPlan::Arrive { final_coord: path.last(), step_index: last_step_index(path.len()) },
        }
    }
}

/// Decides the fast path of a sync with `pending_count` pending moves, the
/// single one from `start` along `path`, given what its final cell holds
/// (see `fast_path_plan_spec`).
pub fn fast_path_plan(
    pending_count: usize,
    start: MoveCoord,
    path: &Vec<MoveCoord>,
    guarded_object: bool,
    champion: &Option<ChampionCellFacts>,
    blocker_participant_id: &str,
    mover_participant_id: &str,
) -> (plan: FastPathPlan)
    requires
        pending_count == 1 ==> path@.len() > 0,
    ensures
        plan == fast_path_plan_spec(
            pending_count as nat,
            start,
            path@,
            guarded_object,
            *champion,
            blocker_participant_id@,
            mover_participant_id@,
        ),
{
    let contact = fast_final_contact(guarded_object, champion);
    if !crate::partial_move::fast_path_applies(pending_count, path.len(), contact) {
        return FastPathPlan::Skip;
    }
    match fast_final(guarded_object, champion, blocker_participant_id, mover_participant_id) {
        FastFinal::ChampionBlocker { enemy } => FastPathPlan::StopAtChampion { enemy, stop: fast_stop_point(start, path) },
        FastFinal::GuardedObject => FastPathPlan::StopAtGuardedObject { stop: fast_stop_point(start, path) },
        FastFinal::Arrive => {
            let stop = fast_stop_point(start, path);
            FastPathPlan::Arrive { final_coord: path[path.len() - 1], step_index: stop.step_index }
        },
    }
}

} // verus!
