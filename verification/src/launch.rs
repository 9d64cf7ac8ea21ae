//! Launching the agent of a scheduled run: find or open a place for it in
//! Herdr, start OpenCode there, and hand it the task's prompt. Each command
//! goes through a runner that the caller provides; the contracts say which
//! commands were run and how their replies decide the launch's result.
use vstd::prelude::*;
use crate::agent::{opt_view, parse_agent_status, spec_parse_agent_status, str_eq, AgentStatus};
use crate::client::{scheduler_run_agent_name, spec_scheduler_run_agent_name, CommandError};
use crate::commands::{args_view, call_json, ran_json, scheduler_command_error, snapshot_args, stage_message, text_arg};
use crate::json::{field, field_of, get, get_of, as_text, text, text_field, text_member, Json};
use crate::replies::{scheduler_agent, spec_scheduler_agent};
use crate::session::HerdrWorkspace;
use crate::snapshot::{parse_agent_session_identity, parse_snapshot, spec_session_identity, spec_snapshot, workspace_view, WorkspaceView};
use crate::text::{
    append_str, char_is_control, chars_of, chars_range, contains_chars, contains_seq, is_control, join,
    join_chars, split_whitespace, string_of, words,
};

verus! {

/// What a scheduled run asks to launch.
pub struct SchedulerLaunchRequest {
    pub run_id: i64,
    pub destination: String,
    pub label: String,
    pub prompt: String,
    pub model: Option<String>,
}

/// What launching a scheduled run found: where its agent runs, as far as the
/// launch got, the session the agent reported, and its status or the error
/// that stopped the launch.
#[derive(Debug)]
pub struct SchedulerLaunchResult {
    pub pane_id: Option<String>,
    pub terminal_id: Option<String>,
    pub session_id: Option<String>,
    pub status: Result<AgentStatus, String>,
}

/// A launch result by value.
pub struct LaunchView {
    pub pane_id: Option<Seq<char>>,
    pub terminal_id: Option<Seq<char>>,
    pub session_id: Option<Seq<char>>,
    pub status: Result<AgentStatus, Seq<char>>,
}

pub open spec fn launch_view(r: SchedulerLaunchResult) -> LaunchView {
    LaunchView {
        pane_id: opt_view(r.pane_id),
        terminal_id: opt_view(r.terminal_id),
        session_id: opt_view(r.session_id),
        status: match r.status {
            Ok(s) => Ok(s),
            Err(e) => Err(e@),
        },
    }
}

/// A launch that stopped before it had a pane.
pub open spec fn launch_failed(message: Seq<char>) -> LaunchView {
    LaunchView { pane_id: None, terminal_id: None, session_id: None, status: Err(message) }
}

fn launch_failure(message: String) -> (r: SchedulerLaunchResult)
    ensures
        launch_view(r) == launch_failed(message@),
{
    SchedulerLaunchResult { pane_id: None, terminal_id: None, session_id: None, status: Err(message) }
}

/// The most characters of a task label that Herdr shows.
pub const SCHEDULER_LABEL_CHARS: usize = 64;

pub open spec fn control_to_space(c: char) -> char {
    if is_control(c) {
        ' '
    } else {
        c
    }
}

/// The label of the tab or workspace of a scheduled run: control characters
/// become spaces, the words are joined by single spaces, an empty label is
/// `hunkle-scheduled`, and at most `SCHEDULER_LABEL_CHARS` characters stay.
pub open spec fn spec_scheduler_label(value: Seq<char>) -> Seq<char> {
    let joined = join(words(value.map_values(|c: char| control_to_space(c))), " "@);
    let label = if joined.len() == 0 {
        "hunkle-scheduled"@
    } else {
        joined
    };
    if label.len() <= SCHEDULER_LABEL_CHARS {
        label
    } else {
        label.take(SCHEDULER_LABEL_CHARS as int)
    }
}

pub fn scheduler_label(value: &str) -> (r: String)
    ensures
        r@ == spec_scheduler_label(value@),
{
    let chars = chars_of(value);
    let ghost spaced = value@.map_values(|c: char| control_to_space(c));
    let mut mapped: Vec<char> = Vec::new();
    let mut i: usize = 0;
    while i < chars.len()
        invariant
            i <= chars.len(),
            chars@ == value@,
            spaced == value@.map_values(|c: char| control_to_space(c)),
            mapped@ == spaced.take(i as int),
        decreases chars.len() - i,
    {
        let c = chars[i];
        if char_is_control(c) {
            mapped.push(' ');
        } else {
            mapped.push(c);
        }
        assert(mapped@ =~= spaced.take(i + 1));
        i = i + 1;
    }
    assert(mapped@ =~= spaced);
    let parts = split_whitespace(&mapped);
    assert(parts@.map_values(|p: Vec<char>| p@) =~= words(spaced));
    let sep: Vec<char> = vec![' '];
    assert(sep@ =~= " "@) by {
        reveal_strlit(" ");
    }
    let joined = join_chars(&parts, &sep);
    let label = if joined.len() == 0 {
        let fallback = chars_of("hunkle-scheduled");
        fallback
    } else {
        joined
    };
    let end: usize = if label.len() <= SCHEDULER_LABEL_CHARS {
        label.len()
    } else {
        SCHEDULER_LABEL_CHARS
    };
    let kept = chars_range(&label, 0, end);
    assert(label@.len() <= SCHEDULER_LABEL_CHARS ==> kept@ =~= label@);
    string_of(kept.as_slice())
}

/// The id of the first workspace whose directory is `path`.
pub open spec fn first_at_path(ws: Seq<WorkspaceView>, path: Seq<char>) -> Option<Seq<char>>
    decreases ws.len(),
{
    if ws.len() == 0 {
        None
    } else if ws[0].path == Some(path) {
        Some(ws[0].id)
    } else {
        first_at_path(ws.drop_first(), path)
    }
}

/// The workspace a snapshot reply shows open at `destination`, if any.
pub open spec fn spec_matching_workspace(value: Json, destination: Seq<char>) -> Result<Option<Seq<char>>, Seq<char>> {
    match spec_snapshot(value) {
        Err(e) => Err(stage_message("workspace snapshot"@, e)),
        Ok((ws, _)) => Ok(first_at_path(ws, destination)),
    }
}

fn staged(stage: &str, message: &str) -> (r: String)
    ensures
        r@ == stage_message(stage@, message@),
{
    let mut out = String::from_str(stage);
    append_str(&mut out, ": ");
    append_str(&mut out, message);
    out
}

/// Finds the workspace already open at a run's destination.
pub fn scheduler_matching_workspace(value: &Json, destination: &str) -> (r: Result<Option<String>, String>)
    ensures
        match spec_matching_workspace(*value, destination@) {
            Ok(w) => r matches Ok(x) && opt_view(x) == w,
            Err(e) => r matches Err(m) && m@ == e,
        },
{
    let workspaces = match parse_snapshot(value) {
        Err(e) => {
            return Err(staged("workspace snapshot", e.as_str()));
        },
        Ok((w, _)) => w,
    };
    let ghost views = workspaces@.map_values(|x: HerdrWorkspace| workspace_view(x));
    let mut i: usize = 0;
    assert(views.skip(0) =~= views);
    while i < workspaces.len()
        invariant
            i <= workspaces.len(),
            views == workspaces@.map_values(|x: HerdrWorkspace| workspace_view(x)),
            first_at_path(views, destination@) == first_at_path(views.skip(i as int), destination@),
            match spec_snapshot(*value) {
                Ok((w, _)) => w == views,
                Err(_) => false,
            },
        decreases workspaces.len() - i,
    {
        let ghost rest = views.skip(i as int);
        assert(rest[0] == views[i as int]);
        let at = match &workspaces[i].path {
            Some(p) => str_eq(p.as_str(), destination),
            None => false,
        };
        if at {
            return Ok(Some(workspaces[i].id.clone()));
        }
        assert(rest.drop_first() =~= views.skip(i + 1));
        i = i + 1;
    }
    Ok(None)
}

/// `agent prompt <pane> <prompt> --wait --until working --until blocked
/// --until idle --until done --timeout 10000`.
pub open spec fn prompt_wait_args(pane: Seq<char>, prompt: Seq<char>) -> Seq<Seq<char>> {
    seq![
        "agent"@,
        "prompt"@,
        pane,
        prompt,
        "--wait"@,
        "--until"@,
        "working"@,
        "--until"@,
        "blocked"@,
        "--until"@,
        "idle"@,
        "--until"@,
        "done"@,
        "--timeout"@,
        "10000"@,
    ]
}

fn prompt_wait_command(pane: &str, prompt: &str) -> (r: Vec<String>)
    ensures
        args_view(r) == prompt_wait_args(pane@, prompt@),
{
    let mut args: Vec<String> = Vec::new();
    args.push(text_arg("agent"));
    args.push(text_arg("prompt"));
    args.push(text_arg(pane));
    args.push(text_arg(prompt));
    args.push(text_arg("--wait"));
    args.push(text_arg("--until"));
    args.push(text_arg("working"));
    args.push(text_arg("--until"));
    args.push(text_arg("blocked"));
    args.push(text_arg("--until"));
    args.push(text_arg("idle"));
    args.push(text_arg("--until"));
    args.push(text_arg("done"));
    args.push(text_arg("--timeout"));
    args.push(text_arg("10000"));
    assert(args_view(args) =~= prompt_wait_args(pane@, prompt@));
    args
}

/// The session an agent reports, by its value.
pub open spec fn session_value(agent: Json) -> Option<Seq<char>> {
    match spec_session_identity(agent) {
        Some(i) => Some(i.value),
        None => None,
    }
}

/// The prompt is handed to the agent in `pane`; the reply to the prompt
/// decides the status and the session.
pub open spec fn launch_prompted<R: Fn(&Vec<String>) -> Result<Json, CommandError>>(
    runner: R,
    pane: Seq<char>,
    terminal: Option<Seq<char>>,
    prompt: Seq<char>,
    r: LaunchView,
) -> bool {
    exists|x: Result<Json, CommandError>| #[trigger]
        ran_json(runner, prompt_wait_args(pane, prompt), x) && match x {
            Err(e) => r == LaunchView {
                pane_id: Some(pane),
                terminal_id: terminal,
                session_id: None,
                status: Err(stage_message("agent prompt"@, e.message@)),
            },
            Ok(v) => match spec_scheduler_agent(v, pane) {
                Err(e) => r == LaunchView {
                    pane_id: Some(pane),
                    terminal_id: terminal,
                    session_id: None,
                    status: Err(stage_message("agent prompt"@, e)),
                },
                Ok(agent) => r == LaunchView {
                    pane_id: Some(pane),
                    terminal_id: terminal,
                    session_id: session_value(agent),
                    status: Ok(spec_parse_agent_status(text_field(agent, "agent_status"@))),
                },
            },
        }
}

/// Herdr says a prompt changed nothing in the agent yet: the error has the
/// code `agent_prompt_stalled`, or its message says so.
pub open spec fn spec_prompt_stalled(reply: Result<Json, CommandError>) -> bool {
    match reply {
        Err(e) => opt_view(e.code) == Some("agent_prompt_stalled"@) || crate::text::contains_seq(
            e.message@,
            "produced no observed state change"@,
        ),
        Ok(_) => false,
    }
}

/// Whether Herdr says a prompt changed nothing in the agent yet.
fn prompt_stalled(reply: &Result<Json, CommandError>) -> (r: bool)
    ensures
        r == spec_prompt_stalled(*reply),
{
    match reply {
        Err(e) => {
            let coded = match &e.code {
                Some(c) => str_eq(c.as_str(), "agent_prompt_stalled"),
                None => false,
            };
            let hay = chars_of(e.message.as_str());
            let needle = chars_of("produced no observed state change");
            coded || contains_chars(&hay, &needle)
        },
        Ok(_) => false,
    }
}

/// Hands the prompt to the agent once it had time to settle, and once more
/// when Herdr says the first prompt changed nothing.
fn launch_prompt<R: Fn(&Vec<String>) -> Result<Json, CommandError>, P: Fn(u64)>(
    runner: &R,
    pause: &P,
    pane: String,
    terminal: Option<String>,
    prompt: &str,
) -> (r: SchedulerLaunchResult)
    requires
        forall|a: &Vec<String>| #[trigger] runner.requires((a,)),
        forall|ms: u64| #[trigger] pause.requires((ms,)),
    ensures
        launch_prompted(*runner, pane@, opt_view(terminal), prompt@, launch_view(r)),
{
    pause(2000);
    let first = call_json(runner, prompt_wait_command(pane.as_str(), prompt));
    let reply = if prompt_stalled(&first) {
        pause(3000);
        call_json(runner, prompt_wait_command(pane.as_str(), prompt))
    } else {
        first
    };
    let ghost x = reply;
    match reply {
        Err(e) => SchedulerLaunchResult {
            pane_id: Some(pane),
            terminal_id: terminal,
            session_id: None,
            status: Err(scheduler_command_error("agent prompt", e)),
        },
        Ok(v) => {
            let (session, status) = match scheduler_agent(&v, pane.as_str()) {
                Err(m) => (None, Err(staged("agent prompt", m.as_str()))),
                Ok(agent) => {
                    let session = match parse_agent_session_identity(agent) {
                        Some(identity) => Some(identity.value),
                        None => None,
                    };
                    let status_text = text_member(agent, "agent_status");
                    let status = match &status_text {
                        Some(s) => parse_agent_status(Some(s.as_str())),
                        None => parse_agent_status(None),
                    };
                    (session, Ok(status))
                },
            };
            SchedulerLaunchResult { pane_id: Some(pane), terminal_id: terminal, session_id: session, status }
        },
    }
}

/// `agent start <name> --kind opencode --pane <pane> --timeout 30000`,
/// with `-- --model <model>` when the task names a model.
pub open spec fn launch_start_args(name: Seq<char>, pane: Seq<char>, model: Option<Seq<char>>) -> Seq<Seq<char>> {
    let base = seq!["agent"@, "start"@, name, "--kind"@, "opencode"@, "--pane"@, pane, "--timeout"@, "30000"@];
    match model {
        Some(m) => base + seq!["--"@, "--model"@, m],
        None => base,
    }
}

fn launch_start_command(name: &str, pane: &str, model: &Option<String>) -> (r: Vec<String>)
    ensures
        args_view(r) == launch_start_args(name@, pane@, opt_view(*model)),
{
    let mut args: Vec<String> = Vec::new();
    args.push(text_arg("agent"));
    args.push(text_arg("start"));
    args.push(text_arg(name));
    args.push(text_arg("--kind"));
    args.push(text_arg("opencode"));
    args.push(text_arg("--pane"));
    args.push(text_arg(pane));
    args.push(text_arg("--timeout"));
    args.push(text_arg("30000"));
    let ghost base = args_view(args);
    assert(base =~= seq!["agent"@, "start"@, name@, "--kind"@, "opencode"@, "--pane"@, pane@, "--timeout"@, "30000"@]);
    match model {
        Some(m) => {
            args.push(text_arg("--"));
            args.push(text_arg("--model"));
            args.push(text_arg(m.as_str()));
            assert(args_view(args) =~= base + seq!["--"@, "--model"@, m@]);
        },
        None => {},
    }
    args
}

/// The agent started where the run expects it: a terminal that differs from
/// the one the new pane was opened with stops the launch.
pub open spec fn started_in<R: Fn(&Vec<String>) -> Result<Json, CommandError>>(
    runner: R,
    pane: Seq<char>,
    created: Option<Seq<char>>,
    started: Option<Seq<char>>,
    prompt: Seq<char>,
    r: LaunchView,
) -> bool {
    if created is Some && started is Some && created != started {
        r == launch_failed("agent start: Herdr returned the agent in an unexpected terminal"@)
    } else {
        launch_prompted(runner, pane, if started is Some { started } else { created }, prompt, r)
    }
}

/// OpenCode is started in `pane`; the reply that ends the retries decides.
pub open spec fn launch_started<R: Fn(&Vec<String>) -> Result<Json, CommandError>>(
    runner: R,
    name: Seq<char>,
    pane: Seq<char>,
    model: Option<Seq<char>>,
    created: Option<Seq<char>>,
    prompt: Seq<char>,
    r: LaunchView,
) -> bool {
    exists|x: Result<Json, CommandError>| #[trigger]
        ran_json(runner, launch_start_args(name, pane, model), x) && match x {
            Err(e) => r == launch_failed(stage_message("agent start"@, e.message@)),
            Ok(v) => match spec_scheduler_agent(v, pane) {
                Err(e) => r == launch_failed(stage_message("agent start"@, e)),
                Ok(agent) => started_in(runner, pane, created, text_field(agent, "terminal_id"@), prompt, r),
            },
        }
}

/// A failed start waits for the pane's shell: Herdr's message says the pane
/// is not an available shell.
pub open spec fn spec_shell_not_ready(reply: Result<Json, CommandError>) -> bool {
    match reply {
        Err(e) => crate::text::contains_seq(e.message@, "is not an available shell"@),
        Ok(_) => false,
    }
}

/// Whether a failed start waits for the pane's shell.
fn shell_not_ready(reply: &Result<Json, CommandError>) -> (r: bool)
    ensures
        r == spec_shell_not_ready(*reply),
{
    match reply {
        Err(e) => {
            let hay = chars_of(e.message.as_str());
            let needle = chars_of("is not an available shell");
            contains_chars(&hay, &needle)
        },
        Ok(_) => false,
    }
}

/// Starts OpenCode in the new pane, trying again after a pause while the
/// pane's shell is not ready, up to fifty times; then prompts it.
fn launch_start<R: Fn(&Vec<String>) -> Result<Json, CommandError>, P: Fn(u64)>(
    runner: &R,
    pause: &P,
    name: &str,
    pane: String,
    model: &Option<String>,
    created: Option<String>,
    prompt: &str,
) -> (r: SchedulerLaunchResult)
    requires
        forall|a: &Vec<String>| #[trigger] runner.requires((a,)),
        forall|ms: u64| #[trigger] pause.requires((ms,)),
    ensures
        launch_started(*runner, name@, pane@, opt_view(*model), opt_view(created), prompt@, launch_view(r)),
{
    let mut result = call_json(runner, launch_start_command(name, pane.as_str(), model));
    let mut retries: u32 = 0;
    while retries < 50 && shell_not_ready(&result)
        invariant
            retries <= 50,
            forall|a: &Vec<String>| #[trigger] runner.requires((a,)),
            forall|ms: u64| #[trigger] pause.requires((ms,)),
            ran_json(*runner, launch_start_args(name@, pane@, opt_view(*model)), result),
        decreases 50 - retries,
    {
        pause(100);
        result = call_json(runner, launch_start_command(name, pane.as_str(), model));
        retries = retries + 1;
    }
    let ghost x = result;
    let started = match result {
        Err(e) => {
            return launch_failure(scheduler_command_error("agent start", e));
        },
        Ok(v) => v,
    };
    let agent = match scheduler_agent(&started, pane.as_str()) {
        Err(m) => {
            return launch_failure(staged("agent start", m.as_str()));
        },
        Ok(a) => a,
    };
    let started_terminal = text_member(agent, "terminal_id");
    let conflict = match (&created, &started_terminal) {
        (Some(c), Some(s)) => !str_eq(c.as_str(), s.as_str()),
        _ => false,
    };
    if conflict {
        return launch_failure(String::from_str("agent start: Herdr returned the agent in an unexpected terminal"));
    }
    let terminal = match started_terminal {
        Some(s) => Some(s),
        None => created,
    };
    let r = launch_prompt(runner, pause, pane, terminal, prompt);
    assert(ran_json(*runner, launch_start_args(name@, pane@, opt_view(*model)), x));
    r
}

/// `tab create --workspace <w>` in the matching workspace, else
/// `workspace create`; then `--cwd <destination> --label <label> --no-focus`.
pub open spec fn launch_create_args(workspace: Option<Seq<char>>, destination: Seq<char>, label: Seq<char>) -> Seq<
    Seq<char>,
> {
    let head = match workspace {
        Some(w) => seq!["tab"@, "create"@, "--workspace"@, w],
        None => seq!["workspace"@, "create"@],
    };
    head + seq!["--cwd"@, destination, "--label"@, label, "--no-focus"@]
}

/// The stage a failed creation is reported under.
pub open spec fn create_stage(workspace: Option<Seq<char>>) -> Seq<char> {
    if workspace is Some {
        "tab creation"@
    } else {
        "workspace creation"@
    }
}

/// A member of the root pane a creation reply reports.
pub open spec fn root_text(v: Json, key: Seq<char>) -> Option<Seq<char>> {
    text(field_of(field_of(field(v, "result"@), "root_pane"@), key))
}

/// A tab (or a workspace) is opened for the run; its root pane hosts the agent.
pub open spec fn launch_created<R: Fn(&Vec<String>) -> Result<Json, CommandError>>(
    runner: R,
    workspace: Option<Seq<char>>,
    destination: Seq<char>,
    label: Seq<char>,
    run_id: int,
    prompt: Seq<char>,
    model: Option<Seq<char>>,
    r: LaunchView,
) -> bool {
    exists|c: Result<Json, CommandError>| #[trigger]
        ran_json(runner, launch_create_args(workspace, destination, spec_scheduler_label(label)), c) && match c {
            Err(e) => r == launch_failed(stage_message(create_stage(workspace), e.message@)),
            Ok(v) => match root_text(v, "pane_id"@) {
                None => r == launch_failed("Herdr did not identify the created pane"@),
                Some(p) => launch_started(
                    runner,
                    spec_scheduler_run_agent_name(label, run_id),
                    p,
                    model,
                    root_text(v, "terminal_id"@),
                    prompt,
                    r,
                ),
            },
        }
}

fn launch_create_command(workspace: &Option<String>, destination: &str, label: &str) -> (r: Vec<String>)
    ensures
        args_view(r) == launch_create_args(opt_view(*workspace), destination@, label@),
{
    let mut args: Vec<String> = Vec::new();
    match workspace {
        Some(w) => {
            args.push(text_arg("tab"));
            args.push(text_arg("create"));
            args.push(text_arg("--workspace"));
            args.push(text_arg(w.as_str()));
        },
        None => {
            args.push(text_arg("workspace"));
            args.push(text_arg("create"));
        },
    }
    let ghost head = args_view(args);
    args.push(text_arg("--cwd"));
    args.push(text_arg(destination));
    args.push(text_arg("--label"));
    args.push(text_arg(label));
    args.push(text_arg("--no-focus"));
    assert(args_view(args) =~= head + seq!["--cwd"@, destination@, "--label"@, label@, "--no-focus"@]);
    assert(head =~= match opt_view(*workspace) {
        Some(w) => seq!["tab"@, "create"@, "--workspace"@, w],
        None => seq!["workspace"@, "create"@],
    });
    args
}

fn launch_create<R: Fn(&Vec<String>) -> Result<Json, CommandError>, P: Fn(u64)>(
    runner: &R,
    pause: &P,
    workspace: Option<String>,
    request: SchedulerLaunchRequest,
) -> (r: SchedulerLaunchResult)
    requires
        forall|a: &Vec<String>| #[trigger] runner.requires((a,)),
        forall|ms: u64| #[trigger] pause.requires((ms,)),
    ensures
        launch_created(
            *runner,
            opt_view(workspace),
            request.destination@,
            request.label@,
            request.run_id as int,
            request.prompt@,
            opt_view(request.model),
            launch_view(r),
        ),
{
    let label = scheduler_label(request.label.as_str());
    let stage = if workspace.is_some() {
        "tab creation"
    } else {
        "workspace creation"
    };
    let created = call_json(runner, launch_create_command(&workspace, request.destination.as_str(), label.as_str()));
    let ghost c = created;
    let value = match created {
        Err(e) => {
            let r = launch_failure(scheduler_command_error(stage, e));
            return r;
        },
        Ok(v) => v,
    };
    let pane = as_text(get_of(get_of(get(&value, "result"), "root_pane"), "pane_id"));
    let terminal = as_text(get_of(get_of(get(&value, "result"), "root_pane"), "terminal_id"));
    let pane = match pane {
        None => {
            return launch_failure(String::from_str("Herdr did not identify the created pane"));
        },
        Some(p) => p,
    };
    let name = scheduler_run_agent_name(request.label.as_str(), request.run_id);
    launch_start(runner, pause, name.as_str(), pane, &request.model, terminal, request.prompt.as_str())
}

/// What launching a scheduled run does: take a snapshot, open a tab in the
/// workspace already at the destination (else a new workspace), start
/// OpenCode in its pane, and prompt it.
pub open spec fn launch_outcome<R: Fn(&Vec<String>) -> Result<Json, CommandError>>(
    runner: R,
    destination: Seq<char>,
    label: Seq<char>,
    run_id: int,
    prompt: Seq<char>,
    model: Option<Seq<char>>,
    r: LaunchView,
) -> bool {
    exists|s: Result<Json, CommandError>| #[trigger]
        ran_json(runner, snapshot_args(), s) && match s {
            Err(e) => r == launch_failed(stage_message("workspace snapshot"@, e.message@)),
            Ok(v) => match spec_matching_workspace(v, destination) {
                Err(e) => r == launch_failed(e),
                Ok(w) => launch_created(runner, w, destination, label, run_id, prompt, model, r),
            },
        }
}

/// Launches the agent of a scheduled run. Pauses go through `pause`, in
/// milliseconds: two seconds before the prompt, since Herdr can report an
/// agent ready just before it accepts input, a tenth of a second between
/// tries to start it, and three seconds before prompting again.
pub fn scheduler_launch_with<R: Fn(&Vec<String>) -> Result<Json, CommandError>, P: Fn(u64)>(
    request: SchedulerLaunchRequest,
    runner: &R,
    pause: &P,
) -> (r: SchedulerLaunchResult)
    requires
        forall|a: &Vec<String>| #[trigger] runner.requires((a,)),
        forall|ms: u64| #[trigger] pause.requires((ms,)),
    ensures
        launch_outcome(
            *runner,
            request.destination@,
            request.label@,
            request.run_id as int,
            request.prompt@,
            opt_view(request.model),
            launch_view(r),
        ),
{
    let mut args: Vec<String> = Vec::new();
    args.push(text_arg("api"));
    args.push(text_arg("snapshot"));
    assert(args_view(args) =~= snapshot_args());
    let snapshot = call_json(runner, args);
    let ghost s = snapshot;
    let value = match snapshot {
        Err(e) => {
            return launch_failure(scheduler_command_error("workspace snapshot", e));
        },
        Ok(v) => v,
    };
    let workspace = match scheduler_matching_workspace(&value, request.destination.as_str()) {
        Err(m) => {
            return launch_failure(m);
        },
        Ok(w) => w,
    };
    launch_create(runner, pause, workspace, request)
}

} // verus!
