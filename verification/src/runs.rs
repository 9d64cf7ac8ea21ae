//! The decisions the scheduler's worker makes about its runs: when a claimed
//! task runs and runs next, whether a project task may run, what a launch
//! and an observation mean for the run's record, and how a finished run's
//! result reaches Discord. The database reads and writes around them are
//! the caller's.
use vstd::prelude::*;
use crate::agent::AgentStatus;
use crate::client::{i64_decimal, signed_decimal};
use crate::commands::{observe_view, ObserveView, SchedulerObserveResult};
use crate::launch::SchedulerLaunchResult;
use crate::scheduler::{agent_status, spec_agent_status, ScheduledRunStatus};
use crate::text::{all_whitespace, append_str, chars_of, starts_with_chars, trim};

verus! {

/// The start of the error a run records when its result did not reach Discord.
pub const DISCORD_DELIVERY_ERROR: &'static str = "Discord delivery failed: ";

/// `x` clamped to the range of `i64`, as `i64::saturating_sub` leaves it.
pub open spec fn saturate(x: int) -> int {
    if x < i64::MIN {
        i64::MIN as int
    } else if x > i64::MAX {
        i64::MAX as int
    } else {
        x
    }
}

/// The remainder of Rust's `%` on integers, which takes the dividend's sign.
pub open spec fn truncated_rem(a: int, b: int) -> int {
    if a >= 0 {
        a % b
    } else {
        -((-a) % b)
    }
}

/// The interval of a stored task in milliseconds, when it is positive and
/// fits in `i64`.
pub open spec fn stored_interval(minutes: int) -> Option<int> {
    let ms = minutes * 60000;
    if 0 < ms <= i64::MAX {
        Some(ms)
    } else {
        None
    }
}

/// When a claimed task runs, and when it runs next. A task asked for by
/// hand runs now and keeps its schedule; a due task runs at the last slot of
/// its schedule that is not after `now`, and next one interval later.
pub open spec fn spec_claim_schedule(requested: bool, now: int, next: int, minutes: int) -> Result<
    (int, Option<int>),
    Seq<char>,
> {
    match stored_interval(minutes) {
        None => Err("stored schedule interval must be positive"@),
        Some(interval) => if requested {
            Ok((now, None))
        } else {
            let scheduled = now - truncated_rem(saturate(now - next), interval);
            if scheduled + interval > i64::MAX {
                Err("schedule overflowed"@)
            } else {
                Ok((scheduled, Some(scheduled + interval)))
            }
        },
    }
}

/// `a - b`, saturated at the bounds of `i64` (`i64::saturating_sub`).
pub fn saturating_difference(a: i64, b: i64) -> (r: i64)
    ensures
        r == saturate(a - b),
{
    let d: i128 = a as i128 - b as i128;
    if d < i64::MIN as i128 {
        i64::MIN
    } else if d > i64::MAX as i128 {
        i64::MAX
    } else {
        d as i64
    }
}

pub fn claim_schedule(requested: bool, now: i64, next: i64, minutes: i64) -> (r: Result<(i64, Option<i64>), String>)
    ensures
        match spec_claim_schedule(requested, now as int, next as int, minutes as int) {
            Ok((s, n)) => r matches Ok((rs, rn)) && rs == s && match n {
                Some(v) => rn == Some(v as i64),
                None => rn is None,
            },
            Err(e) => r matches Err(m) && m@ == e,
        },
{
    let interval: i64 = match minutes.checked_mul(60_000) {
        Some(v) => {
            if v > 0 {
                v
            } else {
                return Err(String::from_str("stored schedule interval must be positive"));
            }
        },
        None => {
            return Err(String::from_str("stored schedule interval must be positive"));
        },
    };
    if requested {
        return Ok((now, None));
    }
    let gap: i64 = saturating_difference(now, next);
    let rem: i64 = if gap >= 0 {
        let g: u64 = gap as u64;
        let i: u64 = interval as u64;
        (g % i) as i64
    } else {
        let g: u64 = if gap == i64::MIN {
            9223372036854775808u64
        } else {
            (-gap) as u64
        };
        let i: u64 = interval as u64;
        let m: u64 = g % i;
        -(m as i64)
    };
    proof {
        assert(gap as int == saturate(now - next));
        if gap >= 0 {
            let g = gap as int;
            let i = interval as int;
            assert(0 <= g % i <= g) by (nonlinear_arith)
                requires
                    g >= 0,
                    i > 0,
            ;
            assert(rem as int == truncated_rem(gap as int, interval as int));
        } else {
            let g = -(gap as int);
            let i = interval as int;
            assert(0 <= g % i <= g) by (nonlinear_arith)
                requires
                    g > 0,
                    i > 0,
            ;
            assert(rem as int == truncated_rem(gap as int, interval as int));
            assert(gap as int >= now as int - next as int);
        }
    }
    let scheduled: i64 = now - rem;
    match scheduled.checked_add(interval) {
        Some(n) => Ok((scheduled, Some(n))),
        None => Err(String::from_str("schedule overflowed")),
    }
}

/// A task that falls due runs at a slot of its schedule: no earlier than it
/// was due, no later than now, a whole number of intervals after the due
/// time and less than one interval before now; the next run is one interval
/// later. (When `now` and the due time lie more than `i64::MAX` apart, the
/// gap saturates and the slot is counted from the saturated gap.)
pub proof fn lemma_due_task_runs_at_its_latest_slot(now: i64, next: i64, minutes: i64)
    requires
        next <= now,
        now - next <= i64::MAX,
        spec_claim_schedule(false, now as int, next as int, minutes as int) is Ok,
    ensures
        ({
            let interval = minutes * 60000;
            match spec_claim_schedule(false, now as int, next as int, minutes as int) {
                Ok((s, n)) => {
                    &&& next <= s <= now
                    &&& (s - next) % interval == 0
                    &&& now - s < interval
                    &&& n == Some(s + interval)
                },
                Err(_) => false,
            }
        }),
{
    let interval = minutes * 60000;
    let d = now - next;
    assert(saturate(d) == d);
    assert(d >= 0);
    let r = d % interval;
    assert(0 <= r < interval) by (nonlinear_arith)
        requires
            interval > 0,
            r == d % interval,
    ;
    assert(d == interval * (d / interval) + r) by (nonlinear_arith)
        requires
            interval > 0,
            r == d % interval,
    ;
    let q = d / interval;
    assert(q >= 0) by (nonlinear_arith)
        requires
            interval > 0,
            d >= 0,
            q == d / interval,
    ;
    assert((interval * q) % interval == 0) by (nonlinear_arith)
        requires
            interval > 0,
    ;
    assert(r <= d);
}

/// A claimed task's model, when it names one.
pub open spec fn spec_claim_model(model: Seq<char>) -> Option<Seq<char>> {
    if trim(model).len() == 0 {
        None
    } else {
        Some(model)
    }
}

pub fn claim_model(model: String) -> (r: Option<String>)
    ensures
        match spec_claim_model(model@) {
            Some(m) => r matches Some(x) && x@ == m,
            None => r is None,
        },
{
    let chars = chars_of(model.as_str());
    if all_whitespace(&chars) {
        None
    } else {
        Some(model)
    }
}

/// The label of a claimed run's tab: `Hunkle: <title> #<task id>`.
pub open spec fn spec_claim_label(title: Seq<char>, task_id: int) -> Seq<char> {
    "Hunkle: "@ + title + " #"@ + signed_decimal(task_id)
}

pub fn claim_label(title: &str, task_id: i64) -> (r: String)
    ensures
        r@ == spec_claim_label(title@, task_id as int),
{
    let mut label = String::from_str("Hunkle: ");
    append_str(&mut label, title);
    append_str(&mut label, " #");
    let digits = i64_decimal(task_id);
    append_str(&mut label, digits.as_str());
    label
}

/// Whether a project task may run, and what its record learns when not.
#[derive(Debug)]
pub enum ProjectGate {
    /// The task file still holds the approved content.
    Approved,
    /// The task was never approved, or its source is marked missing.
    RequiresApproval,
    /// The task has no source file.
    Unavailable,
    /// The task file changed: the task is disabled and the new content kept
    /// for approval.
    Changed(Vec<u8>),
    /// The task file could not be read: the task is disabled and marked missing.
    Missing,
}

impl ProjectGate {
    /// Why the task may not run.
    pub fn message(&self) -> (r: Option<&'static str>)
        ensures
            match self {
                ProjectGate::Approved => r is None,
                ProjectGate::RequiresApproval => r == Some("project task requires approval"),
                ProjectGate::Unavailable => r == Some("project task source is unavailable"),
                ProjectGate::Changed(_) => r == Some("project task changed and requires approval"),
                ProjectGate::Missing => r == Some("project task source is missing"),
            },
    {
        match self {
            ProjectGate::Approved => None,
            ProjectGate::RequiresApproval => Some("project task requires approval"),
            ProjectGate::Unavailable => Some("project task source is unavailable"),
            ProjectGate::Changed(_) => Some("project task changed and requires approval"),
            ProjectGate::Missing => Some("project task source is missing"),
        }
    }
}

/// A gate by value.
pub enum GateView {
    Approved,
    RequiresApproval,
    Unavailable,
    Changed(Seq<u8>),
    Missing,
}

pub open spec fn gate_view(g: ProjectGate) -> GateView {
    match g {
        ProjectGate::Approved => GateView::Approved,
        ProjectGate::RequiresApproval => GateView::RequiresApproval,
        ProjectGate::Unavailable => GateView::Unavailable,
        ProjectGate::Changed(c) => GateView::Changed(c@),
        ProjectGate::Missing => GateView::Missing,
    }
}

/// A project task's gate, by what is stored of it and what reading its
/// source file gave (`None` when it has no source file; read only when the
/// task is approved and not marked missing).
pub open spec fn spec_project_gate(source_missing: bool, approved: Option<Seq<u8>>, read: Option<Result<Seq<u8>, ()>>) -> GateView {
    match approved {
        None => GateView::RequiresApproval,
        Some(a) => if source_missing {
            GateView::RequiresApproval
        } else {
            match read {
                None => GateView::Unavailable,
                Some(Err(_)) => GateView::Missing,
                Some(Ok(c)) => if c == a {
                    GateView::Approved
                } else {
                    GateView::Changed(c)
                },
            }
        },
    }
}

pub(crate) fn same_bytes(a: &[u8], b: &[u8]) -> (r: bool)
    ensures
        r == (a@ == b@),
{
    if a.len() != b.len() {
        return false;
    }
    let mut i: usize = 0;
    while i < a.len()
        invariant
            i <= a.len(),
            a@.len() == b@.len(),
            forall|k: int| 0 <= k < i ==> a@[k] == b@[k],
        decreases a.len() - i,
    {
        if a[i] != b[i] {
            return false;
        }
        i = i + 1;
    }
    assert(a@ =~= b@);
    true
}

pub open spec fn read_view(read: Option<Result<Vec<u8>, ()>>) -> Option<Result<Seq<u8>, ()>> {
    match read {
        None => None,
        Some(Ok(c)) => Some(Ok(c@)),
        Some(Err(_)) => Some(Err(())),
    }
}

pub fn project_gate(source_missing: bool, approved: Option<&[u8]>, read: Option<Result<Vec<u8>, ()>>) -> (r: ProjectGate)
    ensures
        gate_view(r) == spec_project_gate(
            source_missing,
            match approved {
                Some(a) => Some(a@),
                None => None,
            },
            read_view(read),
        ),
{
    let a = match approved {
        None => {
            return ProjectGate::RequiresApproval;
        },
        Some(a) => a,
    };
    if source_missing {
        return ProjectGate::RequiresApproval;
    }
    match read {
        None => ProjectGate::Unavailable,
        Some(Err(())) => ProjectGate::Missing,
        Some(Ok(content)) => {
            if same_bytes(content.as_slice(), a) {
                ProjectGate::Approved
            } else {
                ProjectGate::Changed(content)
            }
        },
    }
}

/// The error a run records when OpenCode accepted the prompt but reported
/// no session.
pub open spec fn no_session_message() -> Seq<char> {
    "OpenCode did not report a session after accepting the prompt"@
}

/// What a launch means for the run's record: its status and error.
pub open spec fn spec_launch_record(
    status: Result<AgentStatus, Seq<char>>,
    pane_known: bool,
    session_known: bool,
) -> (ScheduledRunStatus, Option<Seq<char>>) {
    match status {
        Ok(s) => if !session_known && (s == AgentStatus::Idle || s == AgentStatus::Done) {
            (ScheduledRunStatus::Unknown, Some(no_session_message()))
        } else {
            (spec_agent_status(s), None)
        },
        Err(e) => if pane_known {
            (ScheduledRunStatus::Unknown, Some(e))
        } else {
            (ScheduledRunStatus::Failed, Some(e))
        },
    }
}

pub fn launch_record(result: &SchedulerLaunchResult) -> (r: (ScheduledRunStatus, Option<String>))
    ensures
        ({
            let expected = spec_launch_record(
                match result.status {
                    Ok(s) => Ok(s),
                    Err(e) => Err(e@),
                },
                result.pane_id is Some,
                result.session_id is Some,
            );
            r.0 == expected.0 && crate::agent::opt_view(r.1) == expected.1
        }),
{
    match &result.status {
        Ok(status) => {
            let settled = match status {
                AgentStatus::Idle | AgentStatus::Done => true,
                _ => false,
            };
            if result.session_id.is_none() && settled {
                (
                    ScheduledRunStatus::Unknown,
                    Some(String::from_str("OpenCode did not report a session after accepting the prompt")),
                )
            } else {
                (agent_status(*status), None)
            }
        },
        Err(error) => {
            if result.pane_id.is_some() {
                (ScheduledRunStatus::Unknown, Some(error.clone()))
            } else {
                (ScheduledRunStatus::Failed, Some(error.clone()))
            }
        },
    }
}

/// A launch never records a completed run without a session to read its
/// result from, and a launch that failed before it had a pane is failed.
pub proof fn lemma_launch_completes_only_with_a_session(
    status: Result<AgentStatus, Seq<char>>,
    pane_known: bool,
    session_known: bool,
)
    ensures
        spec_launch_record(status, pane_known, session_known).0 == ScheduledRunStatus::Completed ==> session_known,
        (status is Err && !pane_known) ==> spec_launch_record(status, pane_known, session_known).0
            == ScheduledRunStatus::Failed,
{
}

/// The error a run reports when OpenCode never gave it a session.
pub open spec fn session_timeout_message() -> Seq<char> {
    "OpenCode did not report a session within 30 seconds of accepting the prompt"@
}

/// The note a run shows while it waits for its session.
pub open spec fn session_wait_message() -> Seq<char> {
    "Waiting for OpenCode to report this run's session"@
}

/// How long a run may wait for its session, in milliseconds.
pub const SESSION_WAIT_MS: i64 = 30000;

/// What refreshing a run does with an observation of its agent.
#[derive(Debug)]
pub enum RefreshStep {
    /// The run failed with this error.
    Fail(String),
    /// The observation is recorded.
    Apply(SchedulerObserveResult),
}

pub enum RefreshView {
    Fail(Seq<char>),
    Apply(ObserveView),
}

pub open spec fn refresh_view(r: RefreshStep) -> RefreshView {
    match r {
        RefreshStep::Fail(m) => RefreshView::Fail(m@),
        RefreshStep::Apply(o) => RefreshView::Apply(observe_view(o)),
    }
}

/// An agent that settled before reporting the run's session: the run waits
/// for the session up to `SESSION_WAIT_MS` after it was created, then fails.
pub open spec fn spec_refresh_step(session_known: bool, observation: ObserveView, now: int, created_at: int) -> RefreshView {
    if !session_known && (observation == ObserveView::Observed(AgentStatus::Idle) || observation == ObserveView::Observed(
        AgentStatus::Done,
    )) {
        if saturate(now - created_at) >= SESSION_WAIT_MS {
            RefreshView::Fail(session_timeout_message())
        } else {
            RefreshView::Apply(ObserveView::Unavailable(session_wait_message()))
        }
    } else {
        RefreshView::Apply(observation)
    }
}

pub fn refresh_step(session_known: bool, observation: SchedulerObserveResult, now: i64, created_at_ms: i64) -> (r: RefreshStep)
    ensures
        refresh_view(r) == spec_refresh_step(session_known, observe_view(observation), now as int, created_at_ms as int),
{
    let settled = match &observation {
        SchedulerObserveResult::Observed(AgentStatus::Idle) => true,
        SchedulerObserveResult::Observed(AgentStatus::Done) => true,
        _ => false,
    };
    if !session_known && settled {
        if saturating_difference(now, created_at_ms) >= SESSION_WAIT_MS {
            RefreshStep::Fail(
                String::from_str("OpenCode did not report a session within 30 seconds of accepting the prompt"),
            )
        } else {
            RefreshStep::Apply(
                SchedulerObserveResult::Unavailable(String::from_str("Waiting for OpenCode to report this run's session")),
            )
        }
    } else {
        RefreshStep::Apply(observation)
    }
}

/// Whether a stored error is a failed Discord delivery.
pub open spec fn is_delivery_error(error: Option<Seq<char>>) -> bool {
    match error {
        Some(e) => DISCORD_DELIVERY_ERROR@.len() <= e.len() && e.take(DISCORD_DELIVERY_ERROR@.len() as int)
            == DISCORD_DELIVERY_ERROR@,
        None => false,
    }
}

pub fn delivery_failed(error: Option<&str>) -> (r: bool)
    ensures
        r == is_delivery_error(
            match error {
                Some(e) => Some(e@),
                None => None,
            },
        ),
{
    match error {
        Some(e) => {
            let text = chars_of(e);
            let prefix = chars_of(DISCORD_DELIVERY_ERROR);
            starts_with_chars(&text, &prefix)
        },
        None => false,
    }
}

/// What an observation writes into a run's record.
#[derive(Debug)]
pub enum ObservationUpdate {
    /// The run failed with this error.
    Fail(String),
    /// The run's status and error become these.
    Record(ScheduledRunStatus, Option<String>),
}

pub enum UpdateView {
    Fail(Seq<char>),
    Record(ScheduledRunStatus, Option<Seq<char>>),
}

pub open spec fn update_view(u: ObservationUpdate) -> UpdateView {
    match u {
        ObservationUpdate::Fail(m) => UpdateView::Fail(m@),
        ObservationUpdate::Record(s, e) => UpdateView::Record(s, crate::agent::opt_view(e)),
    }
}

/// A missing agent fails the run; an unavailable one leaves its status
/// unknown with the reason; an observed one sets the status from the agent's
/// and keeps only an error of a failed Discord delivery.
pub open spec fn spec_observation_update(observation: ObserveView, stored_error: Option<Seq<char>>) -> UpdateView {
    match observation {
        ObserveView::Missing(e) => UpdateView::Fail(e),
        ObserveView::Unavailable(e) => UpdateView::Record(ScheduledRunStatus::Unknown, Some(e)),
        ObserveView::Observed(s) => UpdateView::Record(
            spec_agent_status(s),
            if is_delivery_error(stored_error) {
                stored_error
            } else {
                None
            },
        ),
    }
}

pub fn observation_update(observation: SchedulerObserveResult, stored_error: Option<String>) -> (r: ObservationUpdate)
    ensures
        update_view(r) == spec_observation_update(observe_view(observation), crate::agent::opt_view(stored_error)),
{
    let keep = match &stored_error {
        Some(e) => delivery_failed(Some(e.as_str())),
        None => delivery_failed(None),
    };
    match observation {
        SchedulerObserveResult::Missing(e) => ObservationUpdate::Fail(e),
        SchedulerObserveResult::Unavailable(e) => ObservationUpdate::Record(ScheduledRunStatus::Unknown, Some(e)),
        SchedulerObserveResult::Observed(s) => ObservationUpdate::Record(
            agent_status(s),
            if keep {
                stored_error
            } else {
                None
            },
        ),
    }
}

/// How many times the result of a finished run is asked for.
pub const RESULT_FETCH_ATTEMPTS: u32 = 20;

/// `fetch` may answer the request for the result of `session` with `reply`.
pub open spec fn fetched<F: Fn(&str) -> Result<String, String>>(
    fetch: F,
    session: Seq<char>,
    reply: Result<String, String>,
) -> bool {
    exists|s: &str| s@ == session && #[trigger] fetch.ensures((s,), reply)
}

/// Asks for the final answer of a run's session, up to
/// `RESULT_FETCH_ATTEMPTS` times with a quarter of a second between tries,
/// until one succeeds; the last reply is the result.
pub fn fetch_scheduled_result<F: Fn(&str) -> Result<String, String>, P: Fn(u64)>(
    session_id: &str,
    fetch: &F,
    pause: &P,
) -> (r: Result<String, String>)
    requires
        forall|s: &str| #[trigger] fetch.requires((s,)),
        forall|ms: u64| #[trigger] pause.requires((ms,)),
    ensures
        fetched(*fetch, session_id@, r),
{
    let mut result = fetch(session_id);
    proof {
        assert(fetch.ensures((session_id,), result));
    }
    let mut attempt: u32 = 1;
    while attempt < RESULT_FETCH_ATTEMPTS && result.is_err()
        invariant
            1 <= attempt <= RESULT_FETCH_ATTEMPTS,
            forall|s: &str| #[trigger] fetch.requires((s,)),
            forall|ms: u64| #[trigger] pause.requires((ms,)),
            fetched(*fetch, session_id@, result),
        decreases RESULT_FETCH_ATTEMPTS - attempt,
    {
        pause(250);
        result = fetch(session_id);
        proof {
            assert(fetch.ensures((session_id,), result));
        }
        attempt = attempt + 1;
    }
    result
}

/// What delivering a finished run's result comes to.
#[derive(Debug)]
pub enum Delivery {
    /// The result was delivered before: nothing is sent again.
    Delivered,
    /// The result was sent: it is stored and the error cleared.
    Sent(String),
    /// The result did not reach Discord: the error is stored, with the
    /// output when there was one.
    Failed(Option<String>, String),
}

pub enum DeliveryView {
    Delivered,
    Sent(Seq<char>),
    Failed(Option<Seq<char>>, Seq<char>),
}

pub open spec fn delivery_view(d: Delivery) -> DeliveryView {
    match d {
        Delivery::Delivered => DeliveryView::Delivered,
        Delivery::Sent(o) => DeliveryView::Sent(o@),
        Delivery::Failed(o, e) => DeliveryView::Failed(crate::agent::opt_view(o), e@),
    }
}

/// `publish` may answer the request to post `output` under `title` with `reply`.
pub open spec fn posted<P: Fn(&str, &str) -> Result<(), String>>(
    publish: P,
    title: Seq<char>,
    output: Seq<char>,
    reply: Result<(), String>,
) -> bool {
    exists|t: &str, o: &str| t@ == title && o@ == output && #[trigger] publish.ensures((t, o), reply)
}

/// The output is posted; the reply decides.
pub open spec fn post_outcome<P: Fn(&str, &str) -> Result<(), String>>(
    publish: P,
    title: Seq<char>,
    output: Seq<char>,
    r: DeliveryView,
) -> bool {
    exists|p: Result<(), String>| #[trigger]
        posted(publish, title, output, p) && match p {
            Ok(()) => r == DeliveryView::Sent(output),
            Err(e) => r == DeliveryView::Failed(Some(output), DISCORD_DELIVERY_ERROR@ + e@),
        }
}

/// The output to deliver is fetched from the session, then posted.
pub open spec fn fetch_outcome<F: Fn(&str) -> Result<String, String>, P: Fn(&str, &str) -> Result<(), String>>(
    fetch: F,
    publish: P,
    title: Seq<char>,
    session: Seq<char>,
    r: DeliveryView,
) -> bool {
    exists|f: Result<String, String>| #[trigger]
        fetched(fetch, session, f) && match f {
            Err(e) => r == DeliveryView::Failed(None, DISCORD_DELIVERY_ERROR@ + e@),
            Ok(o) => post_outcome(publish, title, o@, r),
        }
}

/// Delivering a finished run: a run that stored its output and has no
/// failed delivery is done; else its output (stored, or fetched from its
/// session) is posted, and a failure at any step is recorded as a failed
/// delivery.
pub open spec fn delivery_outcome<F: Fn(&str) -> Result<String, String>, P: Fn(&str, &str) -> Result<(), String>>(
    fetch: F,
    publish: P,
    title: Seq<char>,
    session: Option<Seq<char>>,
    stored_output: Seq<char>,
    stored_error: Option<Seq<char>>,
    r: DeliveryView,
) -> bool {
    if stored_output.len() > 0 && !is_delivery_error(stored_error) {
        r == DeliveryView::Delivered
    } else if stored_output.len() > 0 {
        post_outcome(publish, title, stored_output, r)
    } else {
        match session {
            None => r == DeliveryView::Failed(None, DISCORD_DELIVERY_ERROR@ + "OpenCode session is unavailable"@),
            Some(s) => fetch_outcome(fetch, publish, title, s, r),
        }
    }
}

fn delivery_error(message: &str) -> (r: String)
    ensures
        r@ == DISCORD_DELIVERY_ERROR@ + message@,
{
    let mut error = String::from_str(DISCORD_DELIVERY_ERROR);
    append_str(&mut error, message);
    error
}

fn post<P: Fn(&str, &str) -> Result<(), String>>(publish: &P, title: &str, output: String) -> (r: Delivery)
    requires
        forall|t: &str, o: &str| #[trigger] publish.requires((t, o)),
    ensures
        post_outcome(*publish, title@, output@, delivery_view(r)),
{
    let text = output.as_str();
    let reply = publish(title, text);
    proof {
        assert(publish.ensures((title, text), reply));
        assert(posted(*publish, title@, output@, reply));
    }
    match reply {
        Ok(()) => Delivery::Sent(output),
        Err(e) => Delivery::Failed(Some(output), delivery_error(e.as_str())),
    }
}

/// Delivers a finished run's result to Discord: the stored output, else the
/// session's final answer that `fetch` gives, posted through `publish`.
pub fn deliver_run<F: Fn(&str) -> Result<String, String>, P: Fn(&str, &str) -> Result<(), String>>(
    title: &str,
    session_id: Option<&str>,
    stored_output: &str,
    stored_error: Option<&str>,
    fetch: &F,
    publish: &P,
) -> (r: Delivery)
    requires
        forall|s: &str| #[trigger] fetch.requires((s,)),
        forall|t: &str, o: &str| #[trigger] publish.requires((t, o)),
    ensures
        delivery_outcome(
            *fetch,
            *publish,
            title@,
            match session_id {
                Some(s) => Some(s@),
                None => None,
            },
            stored_output@,
            match stored_error {
                Some(e) => Some(e@),
                None => None,
            },
            delivery_view(r),
        ),
{
    let retrying = delivery_failed(stored_error);
    let has_output = chars_of(stored_output).len() > 0;
    if has_output && !retrying {
        return Delivery::Delivered;
    }
    if has_output {
        return post(publish, title, String::from_str(stored_output));
    }
    let session = match session_id {
        None => {
            return Delivery::Failed(None, delivery_error("OpenCode session is unavailable"));
        },
        Some(s) => s,
    };
    let fetched_output = fetch(session);
    let ghost f = fetched_output;
    proof {
        assert(fetch.ensures((session,), fetched_output));
        assert(fetched(*fetch, session@, f));
    }
    match fetched_output {
        Err(e) => Delivery::Failed(None, delivery_error(e.as_str())),
        Ok(output) => post(publish, title, output),
    }
}

/// A run whose output was stored without a failed delivery is never posted
/// again: delivering it sends nothing.
pub proof fn lemma_delivered_runs_are_not_posted_again<
    F: Fn(&str) -> Result<String, String>,
    P: Fn(&str, &str) -> Result<(), String>,
>(
    fetch: F,
    publish: P,
    title: Seq<char>,
    session: Option<Seq<char>>,
    stored_output: Seq<char>,
    stored_error: Option<Seq<char>>,
    r: DeliveryView,
)
    requires
        stored_output.len() > 0,
        !is_delivery_error(stored_error),
        delivery_outcome(fetch, publish, title, session, stored_output, stored_error, r),
    ensures
        r == DeliveryView::Delivered,
{
}


/// What stops a task from being claimed now.
#[derive(Debug)]
pub enum ClaimObstacle {
    /// Its project file keeps it from running, for this reason.
    Unavailable(String),
    /// It has a run that is still active.
    ActiveRun,
    /// Its run for this slot was claimed already.
    AlreadyClaimed,
}

/// What claiming does after an obstacle.
#[derive(Debug)]
pub enum ClaimStep {
    /// A task asked for by hand fails with the message; the store keeps what
    /// the check recorded when `commit` holds.
    Fail { message: String, commit: bool },
    /// A due task is passed over and the next due task is tried.
    NextTask,
}

/// The message of a claim obstacle.
pub open spec fn obstacle_message(o: ClaimObstacle) -> Seq<char> {
    match o {
        ClaimObstacle::Unavailable(m) => m@,
        ClaimObstacle::ActiveRun => "scheduled task already has an active run"@,
        ClaimObstacle::AlreadyClaimed => "scheduled run was already claimed"@,
    }
}

/// After an obstacle: a task asked for by hand fails with its message,
/// keeping what the project check recorded; a due task is passed over.
pub fn claim_step(requested: bool, obstacle: ClaimObstacle) -> (r: ClaimStep)
    ensures
        !requested ==> r is NextTask,
        requested ==> (r matches ClaimStep::Fail { message, commit } && message@ == obstacle_message(obstacle)
            && commit == (obstacle is Unavailable)),
{
    if !requested {
        return ClaimStep::NextTask;
    }
    match obstacle {
        ClaimObstacle::Unavailable(m) => ClaimStep::Fail { message: m, commit: true },
        ClaimObstacle::ActiveRun => ClaimStep::Fail {
            message: String::from_str("scheduled task already has an active run"),
            commit: false,
        },
        ClaimObstacle::AlreadyClaimed => ClaimStep::Fail {
            message: String::from_str("scheduled run was already claimed"),
            commit: false,
        },
    }
}

} // verus!
