//! Re-evaluating the advanced victory rules of a session.
use vstd::prelude::*;
use crate::text::str_eq;

verus! {

/// The state of one scenario rule that its evaluation reads and writes.
pub struct RuleState {
    pub rule_key: String,
    pub required_value: u32,
    pub current_value: u32,
    pub victory_state: String,
    pub winner_participant_id: Option<String>,
    pub last_checked_turn: u32,
    /// `active` while the rule is still evaluated.
    pub status: String,
}

/// The session facts the rules are evaluated against.
pub struct SessionFacts {
    pub current_turn: u32,
    pub winner_participant_id: Option<String>,
    /// Completed central objectives.
    pub completed_objectives: u32,
    /// The current turn's runtime is open.
    pub runtime_open: bool,
    /// The state the max-turn rule has at the current turn.
    pub max_turn_state: String,
}

/// `complete` when `value` reaches `required`, else `active`.
pub open spec fn threshold_state(value: u32, required: u32) -> Seq<char> {
    if value >= required { "complete"@ } else { "active"@ }
}

/// The quest-victory rule takes its count from storage unless it was
/// already checked in this turn while the turn's runtime is open.
pub open spec fn needs_claimed_count_spec(rule: RuleState, session: SessionFacts) -> bool {
    rule.rule_key@ == "rule:quest-victory"@ && !(session.runtime_open && rule.last_checked_turn == session.current_turn)
}

/// Whether evaluating `rule` needs the count of claimed quests.
pub fn needs_claimed_quest_count(rule: &RuleState, session: &SessionFacts) -> (needed: bool)
    ensures
        needed == needs_claimed_count_spec(*rule, *session),
{
    str_eq(rule.rule_key.as_str(), "rule:quest-victory") && !(session.runtime_open && rule.last_checked_turn == session.current_turn)
}

/// The rule after evaluation: the conquest rule follows the session's
/// winner, the central-objectives rule the completed objectives, the
/// quest-victory rule the claimed quests (`claimed_quests` when it needs
/// them, else its own count), the max-turn rule the current turn; any rule
/// is marked checked in the current turn.
pub open spec fn evaluated_spec(rule: RuleState, session: SessionFacts, claimed_quests: u32) -> (u32, Seq<char>, Option<Seq<char>>) {
    let winner = match rule.winner_participant_id {
        Some(w) => Some(w@),
        None => None,
    };
    let session_winner = match session.winner_participant_id {
        Some(w) => Some(w@),
        None => None,
    };
    if rule.rule_key@ == "rule:conquest"@ {
        (
            if session_winner is Some { 1 } else { 0 },
            if session_winner is Some { "complete"@ } else { "active"@ },
            session_winner,
        )
    } else if rule.rule_key@ == "rule:central-objectives"@ {
        (session.completed_objectives, threshold_state(session.completed_objectives, rule.required_value), winner)
    } else if rule.rule_key@ == "rule:quest-victory"@ {
        let claimed = if needs_claimed_count_spec(rule, session) { claimed_quests } else { rule.current_value };
        (claimed, threshold_state(claimed, rule.required_value), winner)
    } else if rule.rule_key@ == "rule:max-turn"@ {
        (session.current_turn, session.max_turn_state@, winner)
    } else {
        (rule.current_value, rule.victory_state@, winner)
    }
}

/// Copies an optional string.
fn copy_text(s: &Option<String>) -> (copy: Option<String>)
    ensures
        copy == *s,
{
    match s {
        Some(t) => Some(t.clone()),
        None => None,
    }
}

/// Evaluates a rule against the session; answers whether its value, state
/// or winner changed (and so must be stored).
pub fn evaluate_rule(rule: &mut RuleState, session: &SessionFacts, claimed_quests: u32) -> (changed: bool)
    ensures
        ({
            let (v, s, w) = evaluated_spec(*old(rule), *session, claimed_quests);
            let w2 = match final(rule).winner_participant_id {
                Some(x) => Some(x@),
                None => None,
            };
            let w1 = match old(rule).winner_participant_id {
                Some(x) => Some(x@),
                None => None,
            };
            &&& final(rule).current_value == v
            &&& final(rule).victory_state@ == s
            &&& w2 == w
            &&& final(rule).rule_key == old(rule).rule_key
            &&& final(rule).required_value == old(rule).required_value
            &&& final(rule).status == old(rule).status
            &&& final(rule).last_checked_turn == session.current_turn
            &&& changed == (v != old(rule).current_value || s != old(rule).victory_state@ || w != w1)
        }),
{
    let ghost old_rule = *rule;
    let previous_value = rule.current_value;
    let previous_state = rule.victory_state.clone();
    let previous_winner = copy_text(&rule.winner_participant_id);
    if str_eq(rule.rule_key.as_str(), "rule:conquest") {
        let has_winner = session.winner_participant_id.is_some();
        rule.current_value = if has_winner { 1 } else { 0 };
        rule.winner_participant_id = copy_text(&session.winner_participant_id);
        rule.victory_state = if has_winner { "complete".to_owned() } else { "active".to_owned() };
    } else if str_eq(rule.rule_key.as_str(), "rule:central-objectives") {
        rule.current_value = session.completed_objectives;
        rule.victory_state = if session.completed_objectives >= rule.required_value {
            "complete".to_owned()
        } else {
            "active".to_owned()
        };
    } else if str_eq(rule.rule_key.as_str(), "rule:quest-victory") {
        let claimed = if session.runtime_open && rule.last_checked_turn == session.current_turn {
            rule.current_value
        } else {
            claimed_quests
        };
        rule.current_value = claimed;
        rule.victory_state = if claimed >= rule.required_value { "complete".to_owned() } else { "active".to_owned() };
    } else if str_eq(rule.rule_key.as_str(), "rule:max-turn") {
        rule.current_value = session.current_turn;
        rule.victory_state = session.max_turn_state.clone();
    }
    rule.last_checked_turn = session.current_turn;
    let same_winner = match (&rule.winner_participant_id, &previous_winner) {
        (Some(a), Some(b)) => str_eq(a.as_str(), b.as_str()),
        (None, None) => true,
        _ => false,
    };
    let changed = rule.current_value != previous_value || !str_eq(rule.victory_state.as_str(), previous_state.as_str()) || !same_winner;
    let ghost new_rule = *rule;
    proof {
        let w1 = match old_rule.winner_participant_id {
            Some(x) => Some(x@),
            None => None,
        };
        let w2 = match new_rule.winner_participant_id {
            Some(x) => Some(x@),
            None => None,
        };
        assert(same_winner == (w2 == w1));
    }
    changed
}

/// Whether the rule is still evaluated.
pub open spec fn is_active(rule: RuleState) -> bool {
    rule.status@ == "active"@
}

/// Whether evaluating `rule` changes its value, state or winner.
pub open spec fn changes(rule: RuleState, session: SessionFacts, claimed_quests: u32) -> bool {
    let (v, s, w) = evaluated_spec(rule, session, claimed_quests);
    let w1 = match rule.winner_participant_id {
        Some(x) => Some(x@),
        None => None,
    };
    v != rule.current_value || s != rule.victory_state@ || w != w1
}

/// The number of active rules among the first `n`.
pub open spec fn active_before(rules: Seq<RuleState>, n: int) -> nat
    decreases n,
{
    if n <= 0 {
        0
    } else {
        active_before(rules, n - 1) + if is_active(rules[n - 1]) { 1nat } else { 0nat }
    }
}

/// At most this many rules are evaluated in one pass (at least one).
pub open spec fn check_cap(max_checks: u32) -> nat {
    if max_checks == 0 { 1 } else { max_checks as nat }
}

/// Whether the pass evaluates rule `i`: it is active and fewer than the
/// cap of active rules stand before it.
pub open spec fn evaluated_in_pass(rules: Seq<RuleState>, i: int, max_checks: u32) -> bool {
    is_active(rules[i]) && active_before(rules, i) < check_cap(max_checks)
}

/// `rule` after it was evaluated: what `evaluate_rule` leaves.
pub open spec fn after_evaluation(old_rule: RuleState, new_rule: RuleState, session: SessionFacts, claimed_quests: u32) -> bool {
    let (v, s, w) = evaluated_spec(old_rule, session, claimed_quests);
    let w2 = match new_rule.winner_participant_id {
        Some(x) => Some(x@),
        None => None,
    };
    &&& new_rule.current_value == v
    &&& new_rule.victory_state@ == s
    &&& w2 == w
    &&& new_rule.rule_key == old_rule.rule_key
    &&& new_rule.required_value == old_rule.required_value
    &&& new_rule.status == old_rule.status
    &&& new_rule.last_checked_turn == session.current_turn
}

proof fn lemma_active_before_step(rules: Seq<RuleState>, n: int)
    requires
        0 <= n,
    ensures
        active_before(rules, n + 1) == active_before(rules, n) + if is_active(rules[n]) { 1nat } else { 0nat },
        active_before(rules, n) <= active_before(rules, n + 1),
{
}

proof fn lemma_active_before_mono(rules: Seq<RuleState>, m: int, n: int)
    requires
        0 <= m <= n,
    ensures
        active_before(rules, m) <= active_before(rules, n),
    decreases n - m,
{
    if m < n {
        lemma_active_before_mono(rules, m, n - 1);
        lemma_active_before_step(rules, n - 1);
    }
}

/// The positions, below `upto`, of the rules that the pass evaluates and
/// whose evaluation changes them, in increasing order.
pub open spec fn changed_positions(rules: Seq<RuleState>, session: SessionFacts, claimed_quests: u32, max_checks: u32, upto: int) -> Seq<usize>
    decreases upto,
{
    if upto <= 0 {
        Seq::empty()
    } else {
        let before = changed_positions(rules, session, claimed_quests, max_checks, upto - 1);
        if evaluated_in_pass(rules, upto - 1, max_checks) && changes(rules[upto - 1], session, claimed_quests) {
            before.push((upto - 1) as usize)
        } else {
            before
        }
    }
}

proof fn lemma_changed_positions_rest(rules: Seq<RuleState>, session: SessionFacts, claimed_quests: u32, max_checks: u32, i: int, n: int)
    requires
        0 <= i <= n,
        forall|j: int| i <= j < n ==> !evaluated_in_pass(rules, j, max_checks),
    ensures
        changed_positions(rules, session, claimed_quests, max_checks, n) == changed_positions(rules, session, claimed_quests, max_checks, i),
    decreases n - i,
{
    if i < n {
        lemma_changed_positions_rest(rules, session, claimed_quests, max_checks, i, n - 1);
    }
}

/// What one pass over the rules reports.
pub struct RulePass {
    /// How many rules were evaluated.
    pub touched: u32,
    /// The positions of the evaluated rules whose value, state or winner
    /// changed (those to be stored), in order.
    pub changed: Vec<usize>,
}

/// One pass of the advanced victory checks: the active rules are evaluated
/// in order, at most `max_checks` of them (at least one); each evaluated
/// rule is rewritten in place, the others stay as they were.
pub fn sync_rule_states(rules: &mut Vec<RuleState>, session: &SessionFacts, claimed_quests: u32, max_checks: u32) -> (pass: RulePass)
    ensures
        final(rules)@.len() == old(rules)@.len(),
        forall|i: int| 0 <= i < old(rules)@.len() ==> {
            if evaluated_in_pass(old(rules)@, i, max_checks) {
                after_evaluation(old(rules)@[i], #[trigger] final(rules)@[i], *session, claimed_quests)
            } else {
                final(rules)@[i] == old(rules)@[i]
            }
        },
        pass.touched as nat == if active_before(old(rules)@, old(rules)@.len() as int) < check_cap(max_checks) {
            active_before(old(rules)@, old(rules)@.len() as int)
        } else {
            check_cap(max_checks)
        },
        pass.changed@ == changed_positions(old(rules)@, *session, claimed_quests, max_checks, old(rules)@.len() as int),
{
    let ghost start = rules@;
    let cap: u32 = if max_checks == 0 { 1 } else { max_checks };
    let mut touched: u32 = 0;
    let mut changed: Vec<usize> = Vec::new();
    let n = rules.len();
    let mut i: usize = 0;
    while i < n && touched < cap
        invariant
            n == start.len(),
            rules@.len() == n,
            i <= n,
            cap as nat == check_cap(max_checks),
            touched as nat == active_before(start, i as int),
            touched <= cap,
            forall|j: int| 0 <= j < n ==> {
                if j < i && evaluated_in_pass(start, j, max_checks) {
                    after_evaluation(start[j], #[trigger] rules@[j], *session, claimed_quests)
                } else {
                    rules@[j] == start[j]
                }
            },
            changed@ == changed_positions(start, *session, claimed_quests, max_checks, i as int),
        decreases n - i,
    {
        proof {
            lemma_active_before_step(start, i as int);
        }
        if str_eq(rules[i].status.as_str(), "active") {
            let mut rule = rules[i].duplicate_rule();
            let flag = evaluate_rule(&mut rule, session, claimed_quests);
            rules.set(i, rule);
            if flag {
                changed.push(i);
            }
            touched = touched + 1;
            proof {
                assert(evaluated_in_pass(start, i as int, max_checks));
                assert(flag == changes(start[i as int], *session, claimed_quests));
            }
        }
        i = i + 1;
    }
    proof {
        assert forall|j: int| i <= j < n implies !evaluated_in_pass(start, j, max_checks) by {
            lemma_active_before_mono(start, i as int, j);
        }
        if i < n {
            lemma_active_before_mono(start, i as int, n as int);
        }
        lemma_changed_positions_rest(start, *session, claimed_quests, max_checks, i as int, n as int);
    }
    RulePass { touched, changed }
}

impl RuleState {
    /// A copy of the rule, equal to it.
    pub fn duplicate_rule(&self) -> (copy: RuleState)
        ensures
            copy == *self,
    {
        RuleState {
            rule_key: self.rule_key.clone(),
            required_value: self.required_value,
            current_value: self.current_value,
            victory_state: self.victory_state.clone(),
            winner_participant_id: copy_text(&self.winner_participant_id),
            last_checked_turn: self.last_checked_turn,
            status: self.status.clone(),
        }
    }
}

/// A claimed quest moves an active quest-victory rule one step on
/// (saturating) and marks it checked in the current turn; answers whether
/// its value or state changed. An inactive rule is left as it is.
pub fn apply_quest_claim(rule: &mut RuleState, current_turn: u32) -> (changed: bool)
    ensures
        !is_active(*old(rule)) ==> *final(rule) == *old(rule) && !changed,
        is_active(*old(rule)) ==> {
            let v: u32 = if old(rule).current_value == u32::MAX { u32::MAX } else { (old(rule).current_value + 1) as u32 };
            &&& final(rule).current_value == v
            &&& final(rule).victory_state@ == threshold_state(v, old(rule).required_value)
            &&& final(rule).last_checked_turn == current_turn
            &&& final(rule).rule_key == old(rule).rule_key
            &&& final(rule).required_value == old(rule).required_value
            &&& final(rule).winner_participant_id == old(rule).winner_participant_id
            &&& final(rule).status == old(rule).status
            &&& changed == (v != old(rule).current_value || threshold_state(v, old(rule).required_value) != old(rule).victory_state@)
        },
{
    if !str_eq(rule.status.as_str(), "active") {
        return false;
    }
    let previous_value = rule.current_value;
    let previous_state = rule.victory_state.clone();
    rule.current_value = rule.current_value.saturating_add(1);
    rule.victory_state = if rule.current_value >= rule.required_value { "complete".to_owned() } else { "active".to_owned() };
    rule.last_checked_turn = current_turn;
    rule.current_value != previous_value || !str_eq(rule.victory_state.as_str(), previous_state.as_str())
}

} // verus!
