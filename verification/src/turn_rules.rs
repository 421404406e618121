//! Decisions of turn resolution and of the system-job dispatcher, taken on
//! plain values; the caller performs the storage work they ask for.
use vstd::prelude::*;
use crate::command_answer::{failed_command, FailedCommandAnswer, PublicError};
use crate::seqs::{find_first, lemma_find_first, lemma_find_first_is};
use crate::text::{dec, escape_seq, push_char, push_decimal, push_escaped, push_str, str_eq};

verus! {

/// Every active participant is ready: there is at least one, and there are
/// at least as many ready rows as participants.
pub open spec fn all_ready_spec(participant_count: nat, ready_count: nat) -> bool {
    participant_count != 0 && ready_count >= participant_count
}

/// Whether a turn can be resolved because everyone is ready.
pub fn all_participants_ready(participant_count: usize, ready_count: usize) -> (ready: bool)
    ensures
        ready == all_ready_spec(participant_count as nat, ready_count as nat),
        ready_count < participant_count ==> !ready,
        participant_count == 0 ==> !ready,
        0 < participant_count <= ready_count ==> ready,
{
    participant_count != 0 && ready_count >= participant_count
}

/// Law: a turn counts as all ready exactly when it has participants and no
/// fewer ready rows than participants. While one participant has not
/// ended their turn it is not all ready, and more ready rows never make an
/// all-ready turn not ready.
pub proof fn lemma_all_ready_needs_everyone(participant_count: nat, ready_count: nat, more_ready: nat)
    ensures
        ready_count < participant_count ==> !all_ready_spec(participant_count, ready_count),
        participant_count == 0 ==> !all_ready_spec(participant_count, ready_count),
        0 < participant_count <= ready_count ==> all_ready_spec(participant_count, ready_count),
        all_ready_spec(participant_count, ready_count) && ready_count <= more_ready ==> all_ready_spec(
            participant_count,
            more_ready,
        ),
{
}

/// What a manual turn sync does before touching storage.
#[derive(Clone, Copy, Debug, PartialEq, Eq, Structural)]
pub enum SyncGate {
    /// The deadline has passed: resolve the turn.
    Due,
    /// Not due: the deadline is ahead and nobody is ready in the runtime.
    NotDue,
    /// The deadline is ahead: resolve only if everyone is ready.
    CheckReadiness,
}

/// How a turn sync ends early: with `turn_not_due`, not retryable, when
/// `gate` is `NotDue`, or `CheckReadiness` while not everyone is ready
/// (`all_ready`); otherwise it goes on and this is `None`.
pub fn sync_turn_failure(gate: SyncGate, all_ready: bool) -> (answer: Option<FailedCommandAnswer>)
    ensures
        (gate == SyncGate::NotDue || (gate == SyncGate::CheckReadiness && !all_ready)) ==> (answer matches Some(a)
            && a.is("sync_session_turn"@, "turn_not_due"@, "turn deadline has not elapsed"@, false)),
        !(gate == SyncGate::NotDue || (gate == SyncGate::CheckReadiness && !all_ready)) ==> answer is None,
{
    let not_due = match gate {
        SyncGate::NotDue => true,
        SyncGate::CheckReadiness => !all_ready,
        SyncGate::Due => false,
    };
    if not_due {
        let error = PublicError {
            code: "turn_not_due".to_string(),
            message: "turn deadline has not elapsed".to_string(),
            retryable: false,
        };
        Some(failed_command("sync_session_turn", error))
    } else {
        None
    }
}

/// Gate of a manual sync at `now_ms` for a turn with deadline `deadline_ms`.
pub fn sync_turn_gate(now_ms: u64, deadline_ms: u64, runtime_has_no_ready_participants: bool) -> (gate: SyncGate)
    ensures
        now_ms >= deadline_ms ==> gate == SyncGate::Due,
        now_ms < deadline_ms && runtime_has_no_ready_participants ==> gate == SyncGate::NotDue,
        now_ms < deadline_ms && !runtime_has_no_ready_participants ==> gate == SyncGate::CheckReadiness,
{
    if now_ms >= deadline_ms {
        SyncGate::Due
    } else if runtime_has_no_ready_participants {
        SyncGate::NotDue
    } else {
        SyncGate::CheckReadiness
    }
}

/// Movement that raised events hands control back before the turn advances.
pub fn should_yield_after_movement_events(event_count: usize) -> (yield_now: bool)
    ensures
        yield_now == (event_count != 0),
{
    event_count != 0
}

/// What a turn-resolution or turn-deadline job does.
#[derive(Clone, Copy, Debug, PartialEq, Eq, Structural)]
pub enum TurnJobDecision {
    /// The session row is gone: fail the job for good.
    FailMissingSession,
    /// Nothing to do any more: complete the job.
    Complete,
    /// Too early: run again at the turn deadline.
    Reschedule { due_at_ms: u64 },
    /// Resolve the turn now.
    Resolve,
}

/// The session facts a turn job looks at.
#[derive(Clone, Copy, Debug, PartialEq, Eq, Structural)]
pub struct TurnSessionFacts {
    pub active: bool,
    pub current_turn: u32,
    pub turn_deadline_at_ms: u64,
}

/// Decision of a turn job of kind `job_kind` for turn `job_turn` at `now_ms`.
pub open spec fn turn_job_decision_spec(session: Option<TurnSessionFacts>, job_turn: Option<u32>, deadline_kind: bool, now_ms: u64) -> TurnJobDecision {
    match session {
        None => TurnJobDecision::FailMissingSession,
        Some(s) => if !s.active {
            TurnJobDecision::Complete
        } else if job_turn is Some && job_turn->0 != s.current_turn {
            TurnJobDecision::Complete
        } else if deadline_kind && now_ms < s.turn_deadline_at_ms {
            TurnJobDecision::Reschedule { due_at_ms: s.turn_deadline_at_ms }
        } else {
            TurnJobDecision::Resolve
        },
    }
}

/// Decides what a turn job does: a job of a session that is gone fails, a
/// job of an inactive session or of another turn completes, a deadline job
/// that runs early waits for the deadline, any other job resolves the turn.
pub fn turn_job_decision(session: Option<TurnSessionFacts>, job_turn: Option<u32>, job_kind: &str, now_ms: u64) -> (d: TurnJobDecision)
    ensures
        d == turn_job_decision_spec(session, job_turn, job_kind@ == "turn_deadline"@, now_ms),
{
    let s = match session {
        None => return TurnJobDecision::FailMissingSession,
        Some(s) => s,
    };
    if !s.active {
        return TurnJobDecision::Complete;
    }
    match job_turn {
        Some(t) => if t != s.current_turn {
            return TurnJobDecision::Complete;
        },
        None => {},
    }
    if str_eq(job_kind, "turn_deadline") && now_ms < s.turn_deadline_at_ms {
        return TurnJobDecision::Reschedule { due_at_ms: s.turn_deadline_at_ms };
    }
    TurnJobDecision::Resolve
}

/// A turn whose movement did not finish, or raised events, is parked and
/// retried instead of advancing.
pub fn turn_resolution_parks(movement_complete: bool, event_count: usize) -> (parks: bool)
    ensures
        parks == (!movement_complete || event_count != 0),
{
    !movement_complete || should_yield_after_movement_events(event_count)
}

/// The handler of a claimed system job.
#[derive(Clone, Copy, Debug, PartialEq, Eq, Structural)]
pub enum JobAction {
    SetupSession,
    TurnResolution,
    BattleTimeout,
    BattleRoundAdvance,
    ScenarioMaintenance,
    /// Unknown kind: the job fails for good.
    Unknown,
}

/// The handler of a job kind.
pub open spec fn job_action_spec(kind: Seq<char>) -> JobAction {
    if kind == "setup_session"@ {
        JobAction::SetupSession
    } else if kind == "turn_deadline"@ || kind == "turn_resolution"@ {
        JobAction::TurnResolution
    } else if kind == "battle_timeout"@ {
        JobAction::BattleTimeout
    } else if kind == "battle_round_advance"@ {
        JobAction::BattleRoundAdvance
    } else if kind == "scenario_objectives"@ || kind == "world_events"@ || kind == "advanced_victory"@ {
        JobAction::ScenarioMaintenance
    } else {
        JobAction::Unknown
    }
}

/// Chooses the handler of a claimed job by its kind.
pub fn job_action(job_kind: &str) -> (action: JobAction)
    ensures
        action == job_action_spec(job_kind@),
{
    if str_eq(job_kind, "setup_session") {
        JobAction::SetupSession
    } else if str_eq(job_kind, "turn_deadline") || str_eq(job_kind, "turn_resolution") {
        JobAction::TurnResolution
    } else if str_eq(job_kind, "battle_timeout") {
        JobAction::BattleTimeout
    } else if str_eq(job_kind, "battle_round_advance") {
        JobAction::BattleRoundAdvance
    } else if str_eq(job_kind, "scenario_objectives") || str_eq(job_kind, "world_events") || str_eq(job_kind, "advanced_victory") {
        JobAction::ScenarioMaintenance
    } else {
        JobAction::Unknown
    }
}

/// Most jobs that one timer tick runs.
pub const MAX_JOBS_PER_TICK: u32 = 8;

/// How many more jobs a tick may run after `processed` ones, if any.
pub fn job_slots_left(processed: u32) -> (left: Option<u32>)
    ensures
        processed < MAX_JOBS_PER_TICK ==> left == Some((MAX_JOBS_PER_TICK - processed) as u32),
        processed >= MAX_JOBS_PER_TICK ==> left is None,
{
    if processed < MAX_JOBS_PER_TICK {
        Some(MAX_JOBS_PER_TICK - processed)
    } else {
        None
    }
}

/// The jobs one tick has run so far. A job is tried only while a slot is
/// free and counts at most one, so a tick never runs more than
/// `MAX_JOBS_PER_TICK` jobs: every tick total that reaches
/// `run_until_idle` meets the requirement of `lemma_idle_run_bound`.
#[derive(Clone, Copy, Debug, PartialEq, Eq, Structural)]
pub struct JobTick {
    pub processed: u32,
}

impl JobTick {
    /// A tick that has run nothing yet.
    pub fn new() -> (tick: Self)
        ensures
            tick.processed == 0,
    {
        JobTick { processed: 0 }
    }

    /// How many more jobs the tick may run, if any.
    pub fn slots_left(&self) -> (left: Option<u32>)
        ensures
            self.processed < MAX_JOBS_PER_TICK ==> left == Some((MAX_JOBS_PER_TICK - self.processed) as u32),
            self.processed >= MAX_JOBS_PER_TICK ==> left is None,
    {
        job_slots_left(self.processed)
    }

    /// Accounts a job tried in a free slot: one more when it was claimed and
    /// ran, none when another worker held it.
    pub fn record_job(&mut self, claimed: bool)
        requires
            old(self).processed < MAX_JOBS_PER_TICK,
        ensures
            final(self).processed == old(self).processed + (if claimed { 1int } else { 0int }),
            final(self).processed <= MAX_JOBS_PER_TICK,
    {
        if claimed {
            self.processed = self.processed + 1;
        }
    }
}

/// Progress of running due jobs until the dispatcher is idle.
#[derive(Clone, Copy, Debug, PartialEq, Eq, Structural)]
pub struct IdleRun {
    pub total: u32,
    pub ticks: u32,
    pub max_ticks: u32,
}

impl IdleRun {
    /// A run of at most `max_ticks` ticks.
    pub fn new(max_ticks: u32) -> (run: Self)
        ensures
            run == (IdleRun { total: 0, ticks: 0, max_ticks }),
    {
        IdleRun { total: 0, ticks: 0, max_ticks }
    }

    /// Whether another tick is due.
    pub fn wants_tick(&self) -> (more: bool)
        ensures
            more == (self.ticks < self.max_ticks),
    {
        self.ticks < self.max_ticks
    }

    /// Accounts a tick that ran `processed` jobs; the run stops after a tick
    /// that found nothing to do. Returns whether to go on.
    pub fn record_tick(&mut self, processed: u32) -> (go_on: bool)
        requires
            old(self).ticks < old(self).max_ticks,
        ensures
            final(self).total == (if old(self).total + processed <= u32::MAX {
                (old(self).total + processed) as u32
            } else {
                u32::MAX
            }),
            final(self).max_ticks == old(self).max_ticks,
            processed == 0 ==> final(self).ticks == old(self).max_ticks && !go_on,
            processed != 0 ==> final(self).ticks == old(self).ticks + 1 && go_on == (final(self).ticks < final(self).max_ticks),
    {
        self.total = self.total.saturating_add(processed);
        if processed == 0 {
            self.ticks = self.max_ticks;
            return false;
        }
        self.ticks = self.ticks + 1;
        self.ticks < self.max_ticks
    }
}

/// Whether a tick ends a run: it failed or found nothing to do.
pub open spec fn tick_stops() -> spec_fn(Result<u32, String>) -> bool {
    |t: Result<u32, String>| t is Err || t == Ok::<u32, String>(0)
}

/// Jobs run by the ticks of `ticks`, a failed tick counting none.
pub open spec fn tick_sum(ticks: Seq<Result<u32, String>>) -> int
    decreases ticks.len(),
{
    if ticks.len() == 0 {
        0
    } else {
        tick_sum(ticks.drop_last()) + match ticks.last() {
            Ok(n) => n as int,
            Err(_) => 0int,
        }
    }
}

/// `x`, saturating at `u32::MAX`.
pub open spec fn capped_u32(x: int) -> u32 {
    if x <= u32::MAX {
        x as u32
    } else {
        u32::MAX
    }
}

/// What a run of at most `max_ticks` ticks answers when its ticks come
/// out as `ticks`, in order: it stops after the first tick that fails,
/// passing the error on, or that finds nothing to do; otherwise after
/// `max_ticks` ticks (or when no further outcome is given). It answers the
/// number of jobs run by the ticks it took, saturating at `u32::MAX`.
pub open spec fn idle_run_result(ticks: Seq<Result<u32, String>>, max_ticks: u32) -> Result<u32, String> {
    let f = find_first(ticks, tick_stops());
    let n = if ticks.len() < max_ticks { ticks.len() as int } else { max_ticks as int };
    if 0 <= f < n {
        match ticks[f] {
            Err(e) => Err(e),
            Ok(_) => Ok(capped_u32(tick_sum(ticks.take(f + 1)))),
        }
    } else {
        Ok(capped_u32(tick_sum(ticks.take(n))))
    }
}

proof fn lemma_tick_sum_step(ticks: Seq<Result<u32, String>>, i: int)
    requires
        0 <= i < ticks.len(),
        ticks[i] is Ok,
    ensures
        tick_sum(ticks.take(i + 1)) == tick_sum(ticks.take(i)) + ticks[i]->Ok_0,
        tick_sum(ticks.take(i)) >= 0,
{
    assert(ticks.take(i + 1).drop_last() =~= ticks.take(i));
    lemma_tick_sum_bounds(ticks.take(i));
}

proof fn lemma_tick_sum_bounds(ticks: Seq<Result<u32, String>>)
    ensures
        tick_sum(ticks) >= 0,
        (forall|i: int| 0 <= i < ticks.len() && (#[trigger] ticks[i]) is Ok ==> ticks[i]->Ok_0 <= MAX_JOBS_PER_TICK)
            ==> tick_sum(ticks) <= MAX_JOBS_PER_TICK * ticks.len(),
    decreases ticks.len(),
{
    if ticks.len() > 0 {
        lemma_tick_sum_bounds(ticks.drop_last());
        if forall|i: int| 0 <= i < ticks.len() && (#[trigger] ticks[i]) is Ok ==> ticks[i]->Ok_0 <= MAX_JOBS_PER_TICK {
            assert forall|i: int| 0 <= i < ticks.drop_last().len() && (#[trigger] ticks.drop_last()[i]) is Ok implies ticks.drop_last()[i]->Ok_0 <= MAX_JOBS_PER_TICK by {
                assert(ticks.drop_last()[i] == ticks[i]);
            }
            assert(ticks.last() == ticks[ticks.len() - 1]);
        }
    }
}

/// Runs ticks of due jobs until the dispatcher is idle, given the outcomes
/// of the ticks in order (see `idle_run_result`), accounting them with an
/// `IdleRun`.
pub fn run_until_idle(max_ticks: u32, ticks: &Vec<Result<u32, String>>) -> (res: Result<u32, String>)
    ensures
        res == idle_run_result(ticks@, max_ticks),
{
    let mut run = IdleRun::new(max_ticks);
    let mut i: usize = 0;
    proof {
        assert(ticks@.take(0) =~= Seq::<Result<u32, String>>::empty());
    }
    while i < ticks.len() && run.wants_tick()
        invariant
            i <= ticks@.len(),
            run.max_ticks == max_ticks,
            run.ticks == i,
            i <= max_ticks,
            forall|j: int| 0 <= j < i ==> !tick_stops()(#[trigger] ticks@[j]),
            run.total == capped_u32(tick_sum(ticks@.take(i as int))),
        decreases ticks@.len() - i,
    {
        proof {
            lemma_find_first(ticks@, tick_stops());
        }
        match &ticks[i] {
            Err(e) => {
                proof {
                    lemma_find_first_is(ticks@, tick_stops(), i as int);
                }
                return Err(e.clone());
            },
            Ok(p) => {
                let processed = *p;
                proof {
                    lemma_tick_sum_step(ticks@, i as int);
                }
                let _ = run.record_tick(processed);
                if processed == 0 {
                    proof {
                        lemma_find_first_is(ticks@, tick_stops(), i as int);
                    }
                    return Ok(run.total);
                }
                i = i + 1;
            },
        }
    }
    proof {
        let f = find_first(ticks@, tick_stops());
        lemma_find_first(ticks@, tick_stops());
        if 0 <= f < i {
            assert(!tick_stops()(ticks@[f]));
        }
        let n = if ticks@.len() < max_ticks { ticks@.len() as int } else { max_ticks as int };
        assert(i == n);
    }
    Ok(run.total)
}

/// Law: a run of at most `max_ticks` ticks, each running at most
/// `MAX_JOBS_PER_TICK` jobs, runs at most `MAX_JOBS_PER_TICK * max_ticks`
/// jobs in all, and a run of no tick runs none.
pub proof fn lemma_idle_run_bound(ticks: Seq<Result<u32, String>>, max_ticks: u32)
    requires
        forall|i: int| 0 <= i < ticks.len() && (#[trigger] ticks[i]) is Ok ==> ticks[i]->Ok_0 <= MAX_JOBS_PER_TICK,
    ensures
        idle_run_result(ticks, max_ticks) is Ok ==> idle_run_result(ticks, max_ticks)->Ok_0 <= MAX_JOBS_PER_TICK * max_ticks,
        max_ticks == 0 ==> idle_run_result(ticks, max_ticks) == Ok::<u32, String>(0),
{
    let f = find_first(ticks, tick_stops());
    let n = if ticks.len() < max_ticks { ticks.len() as int } else { max_ticks as int };
    let k = if 0 <= f < n { f + 1 } else { n };
    let t = ticks.take(k);
    assert forall|i: int| 0 <= i < t.len() && (#[trigger] t[i]) is Ok implies t[i]->Ok_0 <= MAX_JOBS_PER_TICK by {
        assert(t[i] == ticks[i]);
    }
    lemma_tick_sum_bounds(t);
    assert(MAX_JOBS_PER_TICK * k <= MAX_JOBS_PER_TICK * max_ticks) by (nonlinear_arith)
        requires
            k <= max_ticks;
    if max_ticks == 0 {
        assert(t =~= Seq::<Result<u32, String>>::empty());
    }
}

/// `"{kind}:{session_id}:{turn_number}"`, the key of a turn's system job.
pub open spec fn turn_job_key_spec(kind: Seq<char>, session_id: Seq<char>, turn_number: u32) -> Seq<char> {
    kind + seq![':'] + session_id + seq![':'] + dec(turn_number as nat)
}

/// Builds the key of a turn's system job.
pub fn turn_job_key(kind: &str, session_id: &str, turn_number: u32) -> (key: String)
    ensures
        key@ == turn_job_key_spec(kind@, session_id@, turn_number),
{
    let mut key = String::new();
    push_str(&mut key, kind);
    push_char(&mut key, ':');
    push_str(&mut key, session_id);
    push_char(&mut key, ':');
    push_decimal(&mut key, turn_number as u64);
    proof {
        assert(key@ =~= turn_job_key_spec(kind@, session_id@, turn_number));
    }
    key
}

/// `true` or `false`.
pub open spec fn bool_text(b: bool) -> Seq<char> {
    if b { "true"@ } else { "false"@ }
}

/// Appends `true` or `false`.
fn push_bool(out: &mut String, b: bool)
    ensures
        final(out)@ == old(out)@ + bool_text(b),
{
    if b {
        push_str(out, "true");
    } else {
        push_str(out, "false");
    }
}

/// Payload of the event raised when a participant ends its turn.
pub open spec fn end_turn_payload_spec(turn_number: u32, ready_count: u64, participant_count: u64, all_ready: bool) -> Seq<char> {
    "{\"turn_number\":"@ + dec(turn_number as nat) + ",\"ready_count\":"@ + dec(ready_count as nat)
        + ",\"participant_count\":"@ + dec(participant_count as nat) + ",\"all_ready\":"@ + bool_text(all_ready) + "}"@
}

/// Builds the payload of the event raised when a participant ends its turn.
pub fn end_turn_event_payload(turn_number: u32, ready_count: u64, participant_count: u64, all_ready: bool) -> (payload: String)
    ensures
        payload@ == end_turn_payload_spec(turn_number, ready_count, participant_count, all_ready),
{
    let mut out = String::new();
    push_str(&mut out, "{\"turn_number\":");
    push_decimal(&mut out, turn_number as u64);
    push_str(&mut out, ",\"ready_count\":");
    push_decimal(&mut out, ready_count);
    push_str(&mut out, ",\"participant_count\":");
    push_decimal(&mut out, participant_count);
    push_str(&mut out, ",\"all_ready\":");
    push_bool(&mut out, all_ready);
    push_str(&mut out, "}");
    proof {
        assert(out@ =~= end_turn_payload_spec(turn_number, ready_count, participant_count, all_ready));
    }
    out
}

/// Result of a turn resolution that had to park its movement.
pub open spec fn partial_turn_result_spec(current_turn: u32) -> Seq<char> {
    "{\"command_kind\":\"turn_resolution\",\"current_turn\":"@ + dec(current_turn as nat) + ",\"partial\":true}"@
}

/// Builds the result of a parked turn resolution.
pub fn partial_turn_result_json(current_turn: u32) -> (json: String)
    ensures
        json@ == partial_turn_result_spec(current_turn),
{
    let mut out = String::new();
    push_str(&mut out, "{\"command_kind\":\"turn_resolution\",\"current_turn\":");
    push_decimal(&mut out, current_turn as u64);
    push_str(&mut out, ",\"partial\":true}");
    proof {
        assert(out@ =~= partial_turn_result_spec(current_turn));
    }
    out
}

/// Result of a completed turn resolution.
pub open spec fn resolved_turn_result_spec(current_turn: u32, event_count: u64) -> Seq<char> {
    "{\"command_kind\":\"turn_resolution\",\"current_turn\":"@ + dec(current_turn as nat)
        + ",\"command_count\":1,\"event_count\":"@ + dec(event_count as nat) + "}"@
}

/// Builds the result of a completed turn resolution.
pub fn resolved_turn_result_json(current_turn: u32, event_count: u64) -> (json: String)
    ensures
        json@ == resolved_turn_result_spec(current_turn, event_count),
{
    let mut out = String::new();
    push_str(&mut out, "{\"command_kind\":\"turn_resolution\",\"current_turn\":");
    push_decimal(&mut out, current_turn as u64);
    push_str(&mut out, ",\"command_count\":1,\"event_count\":");
    push_decimal(&mut out, event_count);
    push_str(&mut out, "}");
    proof {
        assert(out@ =~= resolved_turn_result_spec(current_turn, event_count));
    }
    out
}

/// A time `delta_ms` after `now_ms` in signed milliseconds, saturating.
pub fn later_ms(now_ms: i64, delta_ms: i64) -> (at: i64)
    ensures
        at == (if now_ms + delta_ms > i64::MAX {
            i64::MAX
        } else if now_ms + delta_ms < i64::MIN {
            i64::MIN
        } else {
            (now_ms + delta_ms) as i64
        }),
{
    let sum: i128 = now_ms as i128 + delta_ms as i128;
    if sum > i64::MAX as i128 {
        i64::MAX
    } else if sum < i64::MIN as i128 {
        i64::MIN
    } else {
        sum as i64
    }
}

/// Delay before a parked turn resolution runs again.
pub const PARTIAL_TURN_RETRY_DELAY_MS: i64 = 60000;

/// Lease that a claimed system job holds.
pub const TIMER_LEASE_MS: i64 = 30000;

/// Milliseconds as `u64`; a negative time counts as 0.
pub fn timestamp_to_u64(millis: i64) -> (ms: u64)
    ensures
        ms == (if millis >= 0 { millis as u64 } else { 0 }),
{
    if millis >= 0 { millis as u64 } else { 0 }
}

/// The payload of a turn command: the session it is for.
pub open spec fn session_payload_spec(session_id: Seq<char>) -> Seq<char> {
    "{\"session_id\":\""@ + escape_seq(session_id) + "\"}"@
}

/// Builds the payload of a turn command (end of turn, turn sync).
pub fn session_payload_json(session_id: &str) -> (json: String)
    ensures
        json@ == session_payload_spec(session_id@),
{
    let mut out = String::new();
    push_str(&mut out, "{\"session_id\":\"");
    push_escaped(&mut out, session_id);
    push_str(&mut out, "\"}");
    proof {
        assert(out@ =~= session_payload_spec(session_id@));
    }
    out
}

/// Result of an end of turn.
pub open spec fn end_turn_result_spec(current_turn: u32, ready_count: u64, participant_count: u64, all_ready: bool) -> Seq<char> {
    "{\"command_kind\":\"end_turn\",\"current_turn\":"@ + dec(current_turn as nat) + ",\"ready_count\":"@
        + dec(ready_count as nat) + ",\"participant_count\":"@ + dec(participant_count as nat) + ",\"all_ready\":"@
        + bool_text(all_ready) + ",\"command_count\":1,\"event_count\":1}"@
}

/// Builds the result of an end of turn.
pub fn end_turn_result_json(current_turn: u32, ready_count: u64, participant_count: u64, all_ready: bool) -> (json: String)
    ensures
        json@ == end_turn_result_spec(current_turn, ready_count, participant_count, all_ready),
{
    let mut out = String::new();
    push_str(&mut out, "{\"command_kind\":\"end_turn\",\"current_turn\":");
    push_decimal(&mut out, current_turn as u64);
    push_str(&mut out, ",\"ready_count\":");
    push_decimal(&mut out, ready_count);
    push_str(&mut out, ",\"participant_count\":");
    push_decimal(&mut out, participant_count);
    push_str(&mut out, ",\"all_ready\":");
    push_bool(&mut out, all_ready);
    push_str(&mut out, ",\"command_count\":1,\"event_count\":1}");
    proof {
        assert(out@ =~= end_turn_result_spec(current_turn, ready_count, participant_count, all_ready));
    }
    out
}

/// `end_turn:<session>:<turn>:<participant>`, the key of a participant's
/// end-of-turn event.
pub fn end_turn_event_key(session_id: &str, turn_number: u32, participant_id: &str) -> (key: String)
    ensures
        key@ == "end_turn:"@ + session_id@ + seq![':'] + dec(turn_number as nat) + seq![':'] + participant_id@,
{
    let mut out = String::new();
    push_str(&mut out, "end_turn:");
    push_str(&mut out, session_id);
    push_char(&mut out, ':');
    push_decimal(&mut out, turn_number as u64);
    push_char(&mut out, ':');
    push_str(&mut out, participant_id);
    proof {
        assert(out@ =~= "end_turn:"@ + session_id@ + seq![':'] + dec(turn_number as nat) + seq![':'] + participant_id@);
    }
    out
}

/// `sync_turn:<session>:<turn>`, the key of the event of a synced turn.
pub fn sync_turn_event_key(session_id: &str, turn_number: u32) -> (key: String)
    ensures
        key@ == "sync_turn:"@ + session_id@ + seq![':'] + dec(turn_number as nat),
{
    let mut out = String::new();
    push_str(&mut out, "sync_turn:");
    push_str(&mut out, session_id);
    push_char(&mut out, ':');
    push_decimal(&mut out, turn_number as u64);
    proof {
        assert(out@ =~= "sync_turn:"@ + session_id@ + seq![':'] + dec(turn_number as nat));
    }
    out
}

/// The payload of the event of a synced turn: the new current turn.
pub fn current_turn_payload(current_turn: u32) -> (json: String)
    ensures
        json@ == "{\"current_turn\":"@ + dec(current_turn as nat) + "}"@,
{
    let mut out = String::new();
    push_str(&mut out, "{\"current_turn\":");
    push_decimal(&mut out, current_turn as u64);
    push_str(&mut out, "}");
    proof {
        assert(out@ =~= "{\"current_turn\":"@ + dec(current_turn as nat) + "}"@);
    }
    out
}

/// The turn after `turn`, saturating.
pub fn next_turn(turn: u32) -> (next: u32)
    ensures
        next == if turn == u32::MAX { u32::MAX } else { (turn + 1) as u32 },
{
    turn.saturating_add(1)
}

} // verus!
