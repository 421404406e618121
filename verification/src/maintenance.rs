//! Scenario maintenance: which work a maintenance job does, which job
//! follows it, what its system command records, the initial victory rules
//! of a session, and the tallies the maintenance work reports.
use vstd::prelude::*;
use crate::text::{dec, escape_seq, push_decimal, push_escaped, push_str, str_eq};
use crate::turn_rules::TurnSessionFacts;

verus! {

/// How a maintenance job starts.
#[derive(Clone, Copy, Debug, PartialEq, Eq, Structural)]
pub enum MaintenanceStart {
    /// The session row is gone: fail the job for good.
    FailMissingSession,
    /// The session is no longer active, or the job is of another turn:
    /// complete the job.
    Complete,
    /// Do the work.
    Proceed,
}

/// How a maintenance job starts: fails without its session, completes for
/// an inactive session or a job of another turn, proceeds otherwise.
pub open spec fn maintenance_start_spec(session: Option<TurnSessionFacts>, job_turn: Option<u32>) -> MaintenanceStart {
    match session {
        None => MaintenanceStart::FailMissingSession,
        Some(s) => if !s.active {
            MaintenanceStart::Complete
        } else if job_turn is Some && job_turn->0 != s.current_turn {
            MaintenanceStart::Complete
        } else {
            MaintenanceStart::Proceed
        },
    }
}

/// Decides how a maintenance job starts.
pub fn maintenance_start(session: Option<TurnSessionFacts>, job_turn: Option<u32>) -> (start: MaintenanceStart)
    ensures
        start == maintenance_start_spec(session, job_turn),
{
    match session {
        None => MaintenanceStart::FailMissingSession,
        Some(s) => {
            if !s.active {
                return MaintenanceStart::Complete;
            }
            match job_turn {
                Some(t) => if t != s.current_turn {
                    MaintenanceStart::Complete
                } else {
                    MaintenanceStart::Proceed
                },
                None => MaintenanceStart::Proceed,
            }
        },
    }
}

/// The message a job of a missing session fails with.
pub fn missing_session_message() -> (message: &'static str)
    ensures
        message@ == "scenario maintenance session row not found"@,
{
    "scenario maintenance session row not found"
}

/// The message a job of an unknown kind fails with.
pub fn unsupported_kind_message() -> (message: &'static str)
    ensures
        message@ == "unsupported scenario maintenance job kind"@,
{
    "unsupported scenario maintenance job kind"
}

/// The work a maintenance job does.
#[derive(Clone, Copy, Debug, PartialEq, Eq, Structural)]
pub enum MaintenanceWork {
    /// Recount the central objectives.
    Objectives,
    /// Make sure the world event of the turn exists.
    WorldEvents,
    /// Recount the objectives and re-evaluate the victory rules.
    AdvancedVictory,
    /// Not a maintenance kind: fail the job.
    Unsupported,
}

/// The work of a job of kind `kind`.
pub open spec fn maintenance_work_spec(kind: Seq<char>) -> MaintenanceWork {
    if kind == "scenario_objectives"@ {
        MaintenanceWork::Objectives
    } else if kind == "world_events"@ {
        MaintenanceWork::WorldEvents
    } else if kind == "advanced_victory"@ {
        MaintenanceWork::AdvancedVictory
    } else {
        MaintenanceWork::Unsupported
    }
}

/// The work of a maintenance job of kind `kind`.
pub fn maintenance_work(kind: &str) -> (work: MaintenanceWork)
    ensures
        work == maintenance_work_spec(kind@),
{
    if str_eq(kind, "scenario_objectives") {
        MaintenanceWork::Objectives
    } else if str_eq(kind, "world_events") {
        MaintenanceWork::WorldEvents
    } else if str_eq(kind, "advanced_victory") {
        MaintenanceWork::AdvancedVictory
    } else {
        MaintenanceWork::Unsupported
    }
}

/// The kind of the job scheduled once a job of kind `kind` completed: the
/// objectives are followed by the world events, the world events by the
/// victory checks, and those by nothing.
pub open spec fn next_maintenance_spec(kind: Seq<char>) -> Option<Seq<char>> {
    if kind == "scenario_objectives"@ {
        Some("world_events"@)
    } else if kind == "world_events"@ {
        Some("advanced_victory"@)
    } else {
        None
    }
}

/// The kind of the job that follows a completed job of kind `kind`.
pub fn next_maintenance_job(kind: &str) -> (next: Option<&'static str>)
    ensures
        match next {
            Some(n) => next_maintenance_spec(kind@) == Some(n@),
            None => next_maintenance_spec(kind@) is None,
        },
{
    if str_eq(kind, "scenario_objectives") {
        Some("world_events")
    } else if str_eq(kind, "world_events") {
        Some("advanced_victory")
    } else {
        None
    }
}

/// The result recorded on the system command of a finished job.
pub open spec fn maintenance_result_spec(kind: Seq<char>, current_turn: u32, touched: u32) -> Seq<char> {
    "{\"command_kind\":\""@ + escape_seq(kind) + "\",\"current_turn\":"@ + dec(current_turn as nat) + ",\"touched\":"@
        + dec(touched as nat) + ",\"command_count\":1,\"event_count\":0}"@
}

/// The result recorded on the system command of a finished job.
pub fn maintenance_result_json(kind: &str, current_turn: u32, touched: u32) -> (json: String)
    ensures
        json@ == maintenance_result_spec(kind@, current_turn, touched),
{
    let mut out = String::new();
    push_str(&mut out, "{\"command_kind\":\"");
    push_escaped(&mut out, kind);
    push_str(&mut out, "\",\"current_turn\":");
    push_decimal(&mut out, current_turn as u64);
    push_str(&mut out, ",\"touched\":");
    push_decimal(&mut out, touched as u64);
    push_str(&mut out, ",\"command_count\":1,\"event_count\":0}");
    proof {
        assert(out@ =~= maintenance_result_spec(kind@, current_turn, touched));
    }
    out
}

/// The payload of the system command a job runs under.
pub open spec fn system_command_payload_spec(job_key: Seq<char>, job_kind: Seq<char>, turn_number: u32) -> Seq<char> {
    "{\"job_key\":\""@ + escape_seq(job_key) + "\",\"job_kind\":\""@ + escape_seq(job_kind) + "\",\"turn_number\":"@
        + dec(turn_number as nat) + "}"@
}

/// The payload of the system command a job runs under.
pub fn system_command_payload(job_key: &str, job_kind: &str, turn_number: u32) -> (json: String)
    ensures
        json@ == system_command_payload_spec(job_key@, job_kind@, turn_number),
{
    let mut out = String::new();
    push_str(&mut out, "{\"job_key\":\"");
    push_escaped(&mut out, job_key);
    push_str(&mut out, "\",\"job_kind\":\"");
    push_escaped(&mut out, job_kind);
    push_str(&mut out, "\",\"turn_number\":");
    push_decimal(&mut out, turn_number as u64);
    push_str(&mut out, "}");
    proof {
        assert(out@ =~= system_command_payload_spec(job_key@, job_kind@, turn_number));
    }
    out
}

/// What a recount of the central objectives reports.
#[derive(Clone, Copy, Debug, PartialEq, Eq, Structural)]
pub struct ObjectiveSyncSummary {
    /// Objectives whose world object was found.
    pub touched: u32,
    /// Of those, the objectives someone holds.
    pub completed: u32,
}

/// How many of the first `n` entries are `true`.
pub open spec fn count_true(s: Seq<bool>, n: int) -> nat
    decreases n,
{
    if n <= 0 {
        0
    } else {
        count_true(s, n - 1) + if s[n - 1] { 1nat } else { 0nat }
    }
}

proof fn lemma_count_true_bound(s: Seq<bool>, n: int)
    requires
        0 <= n,
    ensures
        count_true(s, n) <= n,
    decreases n,
{
    if n > 0 {
        lemma_count_true_bound(s, n - 1);
    }
}

/// The tally of a recount: one entry per objective whose world object was
/// found, `true` where someone holds it.
pub fn summarize_objectives(held: &Vec<bool>) -> (summary: ObjectiveSyncSummary)
    requires
        held@.len() <= u32::MAX,
    ensures
        summary.touched == held@.len(),
        summary.completed == count_true(held@, held@.len() as int),
{
    let mut summary = ObjectiveSyncSummary { touched: 0, completed: 0 };
    let mut i: usize = 0;
    while i < held.len()
        invariant
            i <= held@.len() <= u32::MAX,
            summary.touched == i,
            summary.completed == count_true(held@, i as int),
        decreases held@.len() - i,
    {
        proof {
            lemma_count_true_bound(held@, i as int);
        }
        if held[i] {
            summary.completed = summary.completed + 1;
        }
        summary.touched = summary.touched + 1;
        i = i + 1;
    }
    summary
}

/// The number of quests with status `claimed`.
pub open spec fn claimed_count(statuses: Seq<String>, n: int) -> nat
    decreases n,
{
    if n <= 0 {
        0
    } else {
        claimed_count(statuses, n - 1) + if statuses[n - 1]@ == "claimed"@ { 1nat } else { 0nat }
    }
}

proof fn lemma_claimed_count_bound(statuses: Seq<String>, n: int)
    requires
        0 <= n,
    ensures
        claimed_count(statuses, n) <= n,
    decreases n,
{
    if n > 0 {
        lemma_claimed_count_bound(statuses, n - 1);
    }
}

/// Counts the claimed quests among the statuses of a session's quests.
pub fn count_claimed_quests(statuses: &Vec<String>) -> (count: u32)
    requires
        statuses@.len() <= u32::MAX,
    ensures
        count == claimed_count(statuses@, statuses@.len() as int),
{
    let mut count: u32 = 0;
    let mut i: usize = 0;
    while i < statuses.len()
        invariant
            i <= statuses@.len() <= u32::MAX,
            count == claimed_count(statuses@, i as int),
        decreases statuses@.len() - i,
    {
        proof {
            lemma_claimed_count_bound(statuses@, i as int);
        }
        if str_eq(statuses[i].as_str(), "claimed") {
            count = count + 1;
        }
        i = i + 1;
    }
    count
}

/// A victory rule a session starts with.
pub struct RuleSeed {
    pub rule_key: &'static str,
    pub rule_type: &'static str,
    pub status: &'static str,
    pub victory_state: &'static str,
    pub required_value: u32,
    pub disabled_reason: Option<&'static str>,
}

/// The rule with the given texts, active (`disabled_reason` none) or
/// disabled for being schema only.
pub open spec fn seed_is(seed: RuleSeed, key: Seq<char>, rule_type: Seq<char>, active: bool, required: u32) -> bool {
    &&& seed.rule_key@ == key
    &&& seed.rule_type@ == rule_type
    &&& seed.required_value == required
    &&& if active {
        seed.status@ == "active"@ && seed.victory_state@ == "active"@ && seed.disabled_reason is None
    } else {
        &&& seed.status@ == "disabled"@
        &&& seed.victory_state@ == "disabled"@
        &&& (seed.disabled_reason matches Some(r) && r@ == "checkpoint_24_schema_only"@)
    }
}

fn active_seed(rule_key: &'static str, rule_type: &'static str, required_value: u32) -> (seed: RuleSeed)
    ensures
        seed_is(seed, rule_key@, rule_type@, true, required_value),
{
    RuleSeed { rule_key, rule_type, status: "active", victory_state: "active", required_value, disabled_reason: None }
}

fn disabled_seed(rule_key: &'static str, rule_type: &'static str) -> (seed: RuleSeed)
    ensures
        seed_is(seed, rule_key@, rule_type@, false, 1),
{
    RuleSeed {
        rule_key,
        rule_type,
        status: "disabled",
        victory_state: "disabled",
        required_value: 1,
        disabled_reason: Some("checkpoint_24_schema_only"),
    }
}

/// The victory rules a session starts with, in order: conquest (1),
/// central objectives (2), quest victory (3) and the turn limit
/// (`max_turns`), active; artifact victory, king of the hill, survival and
/// the scenario's own defeat, disabled.
pub fn initial_rule_seeds(max_turns: u32) -> (seeds: Vec<RuleSeed>)
    ensures
        seeds@.len() == 8,
        seed_is(seeds@[0], "rule:conquest"@, "conquest"@, true, 1),
        seed_is(seeds@[1], "rule:central-objectives"@, "central_objectives"@, true, 2),
        seed_is(seeds@[2], "rule:quest-victory"@, "quest_victory"@, true, 3),
        seed_is(seeds@[3], "rule:max-turn"@, "max_turn"@, true, max_turns),
        seed_is(seeds@[4], "rule:artifact-victory"@, "artifact_victory"@, false, 1),
        seed_is(seeds@[5], "rule:king-of-the-hill"@, "king_of_the_hill"@, false, 1),
        seed_is(seeds@[6], "rule:survival"@, "survival"@, false, 1),
        seed_is(seeds@[7], "rule:scenario-defeat"@, "scenario_specific_defeat"@, false, 1),
{
    let mut seeds: Vec<RuleSeed> = Vec::new();
    seeds.push(active_seed("rule:conquest", "conquest", 1));
    seeds.push(active_seed("rule:central-objectives", "central_objectives", 2));
    seeds.push(active_seed("rule:quest-victory", "quest_victory", 3));
    seeds.push(active_seed("rule:max-turn", "max_turn", max_turns));
    seeds.push(disabled_seed("rule:artifact-victory", "artifact_victory"));
    seeds.push(disabled_seed("rule:king-of-the-hill", "king_of_the_hill"));
    seeds.push(disabled_seed("rule:survival", "survival"));
    seeds.push(disabled_seed("rule:scenario-defeat", "scenario_specific_defeat"));
    seeds
}

} // verus!
