//! The Herdr commands Hunkle runs, and what their replies mean. Each command
//! goes through a runner that the caller provides (the `herdr` command line);
//! the contracts say which commands were run and how their replies decide
//! the outcome.
use vstd::prelude::*;
use crate::agent::{opt_view, str_eq, AgentStatus};
use crate::client::{opencode_command, scheduler_agent_name, session_id_char, CommandError};
use crate::json::{as_text, field, field_of, get, get_of, text, Json};
use crate::prompt::{AgentPaneDirection, HerdrPaneLayout};
use crate::replies::{
    pane_is_idle_shell, pane_layout_reply, pane_layout_view, spec_idle_shell, spec_pane_layout, zoom_state,
    PaneLayoutView,
};
use crate::snapshot::{session_snapshot_with, spec_snapshot, SessionSnapshot};
use crate::text::append_str;

verus! {

/// The words of a command, by value.
pub open spec fn args_view(a: Vec<String>) -> Seq<Seq<char>> {
    a@.map_values(|s: String| s@)
}

/// `runner` may answer the command `args` with `reply`.
pub open spec fn ran<R: Fn(&Vec<String>) -> Result<Json, String>>(
    runner: R,
    args: Seq<Seq<char>>,
    reply: Result<Json, String>,
) -> bool {
    exists|a: &Vec<String>| args_view(*a) == args && #[trigger] runner.ensures((a,), reply)
}

/// Runs one command.
pub(crate) fn call<R: Fn(&Vec<String>) -> Result<Json, String>>(runner: &R, args: Vec<String>) -> (r: Result<Json, String>)
    requires
        forall|a: &Vec<String>| #[trigger] runner.requires((a,)),
    ensures
        ran(*runner, args_view(args), r),
{
    let r = runner(&args);
    proof {
        let a = &args;
        assert(runner.ensures((a,), r));
    }
    r
}

/// An outcome by value.
pub open spec fn outcome<T>(r: Result<T, String>) -> Result<T, Seq<char>> {
    match r {
        Ok(v) => Ok(v),
        Err(e) => Err(e@),
    }
}

/// The message a scheduler stage reports for a failed command.
pub open spec fn stage_message(stage: Seq<char>, message: Seq<char>) -> Seq<char> {
    stage + ": "@ + message
}

pub fn scheduler_command_error(stage: &str, error: CommandError) -> (r: String)
    ensures
        r@ == stage_message(stage@, error.message@),
{
    let mut message = String::from_str(stage);
    append_str(&mut message, ": ");
    append_str(&mut message, error.message.as_str());
    message
}

/// `pane zoom --pane <pane> --toggle`.
pub open spec fn zoom_args(pane: Seq<char>) -> Seq<Seq<char>> {
    seq!["pane"@, "zoom"@, "--pane"@, pane, "--toggle"@]
}

/// The zoom state a reply reports.
pub open spec fn zoom_outcome(reply: Result<Json, String>) -> Result<bool, Seq<char>> {
    match reply {
        Err(e) => Err(e@),
        Ok(v) => match crate::json::flag(field_of(field_of(field(v, "result"@), "zoom"@), "zoomed"@)) {
            Some(z) => Ok(z),
            None => Err("Herdr did not report the fullscreen state"@),
        },
    }
}

pub(crate) fn text_arg(s: &str) -> (r: String)
    ensures
        r@ == s@,
{
    String::from_str(s)
}

/// Toggles the zoom of a pane and reads whether it is zoomed now.
pub fn toggle_pane_zoom_with<R: Fn(&Vec<String>) -> Result<Json, String>>(pane_id: String, runner: &R) -> (r: Result<
    bool,
    String,
>)
    requires
        forall|a: &Vec<String>| #[trigger] runner.requires((a,)),
    ensures
        exists|reply: Result<Json, String>| #[trigger]
            ran(*runner, zoom_args(pane_id@), reply) && outcome(r) == zoom_outcome(reply),
{
    let ghost pane = pane_id@;
    let mut args: Vec<String> = Vec::new();
    args.push(text_arg("pane"));
    args.push(text_arg("zoom"));
    args.push(text_arg("--pane"));
    args.push(pane_id);
    args.push(text_arg("--toggle"));
    assert(args_view(args) =~= zoom_args(pane));
    let reply = call(runner, args);
    match &reply {
        Err(e) => Err(e.clone()),
        Ok(v) => zoom_state(v),
    }
}

/// `pane close <pane>`.
pub open spec fn close_args(pane: Seq<char>) -> Seq<Seq<char>> {
    seq!["pane"@, "close"@, pane]
}

/// What a command whose reply is not read gives back: nothing, or its error.
pub open spec fn done_outcome(reply: Result<Json, String>) -> Result<(), Seq<char>> {
    match reply {
        Ok(_) => Ok(()),
        Err(e) => Err(e@),
    }
}

/// Closes a pane.
pub fn close_pane_with<R: Fn(&Vec<String>) -> Result<Json, String>>(pane_id: String, runner: &R) -> (r: Result<(), String>)
    requires
        forall|a: &Vec<String>| #[trigger] runner.requires((a,)),
    ensures
        exists|reply: Result<Json, String>| #[trigger]
            ran(*runner, close_args(pane_id@), reply) && outcome(r) == done_outcome(reply),
{
    let ghost pane = pane_id@;
    let mut args: Vec<String> = Vec::new();
    args.push(text_arg("pane"));
    args.push(text_arg("close"));
    args.push(pane_id);
    assert(args_view(args) =~= close_args(pane));
    match call(runner, args) {
        Ok(_) => Ok(()),
        Err(e) => Err(e),
    }
}

/// `agent prompt <pane> <prompt>`.
pub open spec fn prompt_args(pane: Seq<char>, prompt: Seq<char>) -> Seq<Seq<char>> {
    seq!["agent"@, "prompt"@, pane, prompt]
}

/// Sends a message to the agent in a pane.
pub fn prompt_agent_with<R: Fn(&Vec<String>) -> Result<Json, String>>(pane_id: String, prompt: String, runner: &R) -> (r:
    Result<(), String>)
    requires
        forall|a: &Vec<String>| #[trigger] runner.requires((a,)),
    ensures
        exists|reply: Result<Json, String>| #[trigger]
            ran(*runner, prompt_args(pane_id@, prompt@), reply) && outcome(r) == done_outcome(reply),
{
    let ghost pane = pane_id@;
    let ghost text = prompt@;
    let mut args: Vec<String> = Vec::new();
    args.push(text_arg("agent"));
    args.push(text_arg("prompt"));
    args.push(pane_id);
    args.push(prompt);
    assert(args_view(args) =~= prompt_args(pane, text));
    match call(runner, args) {
        Ok(_) => Ok(()),
        Err(e) => Err(e),
    }
}

/// `pane layout --pane <pane>`.
pub open spec fn layout_args(pane: Seq<char>) -> Seq<Seq<char>> {
    seq!["pane"@, "layout"@, "--pane"@, pane]
}

/// The tab layout a `pane layout` reply gives.
pub open spec fn layout_outcome(reply: Result<Json, String>) -> Result<PaneLayoutView, Seq<char>> {
    match reply {
        Err(e) => Err(e@),
        Ok(v) => match field_of(field(v, "result"@), "layout"@) {
            None => Err("Herdr did not return the tab layout"@),
            Some(l) => spec_pane_layout(l),
        },
    }
}

/// Reads the layout of the tab that holds a pane.
pub fn pane_layout_with<R: Fn(&Vec<String>) -> Result<Json, String>>(pane_id: String, runner: &R) -> (r: Result<
    HerdrPaneLayout,
    String,
>)
    requires
        forall|a: &Vec<String>| #[trigger] runner.requires((a,)),
    ensures
        exists|reply: Result<Json, String>| #[trigger]
            ran(*runner, layout_args(pane_id@), reply) && match layout_outcome(reply) {
                Ok(v) => r matches Ok(l) && pane_layout_view(l) == v,
                Err(e) => r matches Err(m) && m@ == e,
            },
{
    let ghost pane = pane_id@;
    let mut args: Vec<String> = Vec::new();
    args.push(text_arg("pane"));
    args.push(text_arg("layout"));
    args.push(text_arg("--pane"));
    args.push(pane_id);
    assert(args_view(args) =~= layout_args(pane));
    let reply = call(runner, args);
    match &reply {
        Err(e) => Err(e.clone()),
        Ok(v) => pane_layout_reply(v),
    }
}

/// The layout of the tab that holds a pane; only inside Herdr.
pub fn pane_layout<R: Fn(&Vec<String>) -> Result<Json, String>>(inside_herdr: bool, pane_id: String, runner: &R) -> (r:
    Result<HerdrPaneLayout, String>)
    requires
        forall|a: &Vec<String>| #[trigger] runner.requires((a,)),
    ensures
        !inside_herdr ==> (r matches Err(e) && e@ == "Pane layouts are only available inside Herdr"@),
        inside_herdr ==> exists|reply: Result<Json, String>| #[trigger]
            ran(*runner, layout_args(pane_id@), reply) && match layout_outcome(reply) {
                Ok(v) => r matches Ok(l) && pane_layout_view(l) == v,
                Err(e) => r matches Err(m) && m@ == e,
            },
{
    if !inside_herdr {
        return Err(String::from_str("Pane layouts are only available inside Herdr"));
    }
    pane_layout_with(pane_id, runner)
}

/// A text outcome by value.
pub open spec fn text_outcome(r: Result<String, String>) -> Result<Seq<char>, Seq<char>> {
    match r {
        Ok(v) => Ok(v@),
        Err(e) => Err(e@),
    }
}

/// The pane a `pane split` reply created.
pub open spec fn new_pane_id(v: Json) -> Option<Seq<char>> {
    text(field_of(field_of(field(v, "result"@), "pane"@), "pane_id"@))
}

/// The pane below, as a `pane neighbor` reply names it.
pub open spec fn neighbor_id(v: Json) -> Option<Seq<char>> {
    text(field_of(field_of(field(v, "result"@), "neighbor"@), "neighbor_pane_id"@))
}

pub open spec fn neighbor_args() -> Seq<Seq<char>> {
    seq!["pane"@, "neighbor"@, "--direction"@, "down"@, "--current"@]
}

pub open spec fn split_below_args() -> Seq<Seq<char>> {
    seq!["pane"@, "split"@, "--current"@, "--direction"@, "down"@, "--no-focus"@]
}

/// `pane run <pane> <command>`.
pub open spec fn run_args(pane: Seq<char>, command: Seq<char>) -> Seq<Seq<char>> {
    seq!["pane"@, "run"@, pane, command]
}

/// The command is run in `pane`: the outcome is the pane, or the run's error.
pub open spec fn after_run<R: Fn(&Vec<String>) -> Result<Json, String>>(
    runner: R,
    pane: Seq<char>,
    command: Seq<char>,
    r: Result<String, String>,
) -> bool {
    exists|x: Result<Json, String>| #[trigger]
        ran(runner, run_args(pane, command), x) && match x {
            Err(f) => text_outcome(r) == Err::<Seq<char>, Seq<char>>(f@),
            Ok(_) => text_outcome(r) == Ok::<Seq<char>, Seq<char>>(pane),
        }
}

/// Runs a command in the pane below Hunkle, splitting one off when there is none.
pub open spec fn below_outcome<R: Fn(&Vec<String>) -> Result<Json, String>>(
    runner: R,
    command: Seq<char>,
    r: Result<String, String>,
) -> bool {
    exists|n: Result<Json, String>| #[trigger]
        ran(runner, neighbor_args(), n) && match n {
            Err(f) => text_outcome(r) == Err::<Seq<char>, Seq<char>>(f@),
            Ok(nv) => match neighbor_id(nv) {
                Some(p) => after_run(runner, p, command, r),
                None => exists|sp: Result<Json, String>| #[trigger]
                    ran(runner, split_below_args(), sp) && match sp {
                        Err(f) => text_outcome(r) == Err::<Seq<char>, Seq<char>>(f@),
                        Ok(sv) => match new_pane_id(sv) {
                            None => text_outcome(r) == Err::<Seq<char>, Seq<char>>(
                                "Herdr did not identify the new pane"@,
                            ),
                            Some(p) => after_run(runner, p, command, r),
                        },
                    },
            },
        }
}

fn pane_id_of(v: &Json) -> (r: Option<String>)
    ensures
        opt_view(r) == new_pane_id(*v),
{
    as_text(get_of(get_of(get(v, "result"), "pane"), "pane_id"))
}

fn run_in<R: Fn(&Vec<String>) -> Result<Json, String>>(runner: &R, pane: String, command: String) -> (r: Result<
    String,
    String,
>)
    requires
        forall|a: &Vec<String>| #[trigger] runner.requires((a,)),
    ensures
        after_run(*runner, pane@, command@, r),
{
    let ghost p = pane@;
    let ghost c = command@;
    let mut args: Vec<String> = Vec::new();
    args.push(text_arg("pane"));
    args.push(text_arg("run"));
    args.push(pane.clone());
    args.push(command);
    assert(args_view(args) =~= run_args(p, c));
    match call(runner, args) {
        Ok(_) => Ok(pane),
        Err(e) => Err(e),
    }
}

/// Runs a command in the pane below Hunkle's, splitting one off when there is none.
pub fn send_command_below_with<R: Fn(&Vec<String>) -> Result<Json, String>>(command: String, runner: &R) -> (r: Result<
    String,
    String,
>)
    requires
        forall|a: &Vec<String>| #[trigger] runner.requires((a,)),
    ensures
        below_outcome(*runner, command@, r),
{
    let mut neighbor_args_v: Vec<String> = Vec::new();
    neighbor_args_v.push(text_arg("pane"));
    neighbor_args_v.push(text_arg("neighbor"));
    neighbor_args_v.push(text_arg("--direction"));
    neighbor_args_v.push(text_arg("down"));
    neighbor_args_v.push(text_arg("--current"));
    assert(args_view(neighbor_args_v) =~= neighbor_args());
    let neighbor = call(runner, neighbor_args_v);
    let found = match &neighbor {
        Err(e) => {
            return Err(e.clone());
        },
        Ok(v) => as_text(get_of(get_of(get(v, "result"), "neighbor"), "neighbor_pane_id")),
    };
    match found {
        Some(pane) => run_in(runner, pane, command),
        None => {
            let mut split_args_v: Vec<String> = Vec::new();
            split_args_v.push(text_arg("pane"));
            split_args_v.push(text_arg("split"));
            split_args_v.push(text_arg("--current"));
            split_args_v.push(text_arg("--direction"));
            split_args_v.push(text_arg("down"));
            split_args_v.push(text_arg("--no-focus"));
            assert(args_view(split_args_v) =~= split_below_args());
            let split = call(runner, split_args_v);
            let created = match &split {
                Err(e) => {
                    return Err(e.clone());
                },
                Ok(v) => pane_id_of(v),
            };
            match created {
                Some(pane) => run_in(runner, pane, command),
                None => Err(String::from_str("Herdr did not identify the new pane")),
            }
        },
    }
}

/// The parameters of a focus request: the pane alone.
pub open spec fn focus_params(p: Json, pane: Seq<char>) -> bool {
    match p {
        Json::Object(f) => f@.len() == 1 && f@[0].0@ == "pane_id"@ && match f@[0].1 {
            Json::String(s) => s@ == pane,
            _ => false,
        },
        _ => false,
    }
}

/// `api` may answer a request to focus `pane` with `reply`.
pub open spec fn asked_focus<A: Fn(&String, &Json) -> Result<Json, String>>(
    api: A,
    pane: Seq<char>,
    reply: Result<Json, String>,
) -> bool {
    exists|m: &String, p: &Json| m@ == "pane.focus"@ && focus_params(*p, pane) && #[trigger] api.ensures((m, p), reply)
}

/// Whether focusing `pane` succeeded, by the reply.
pub open spec fn focus_outcome(reply: Result<Json, String>, pane: Seq<char>, operation: Seq<char>) -> Result<(), Seq<char>> {
    match reply {
        Err(e) => Err(e@),
        Ok(v) => match field(v, "result"@) {
            None => Err("Herdr returned an invalid response while trying to "@ + operation),
            Some(res) => if crate::json::text_field(res, "type"@) != Some("pane_info"@) || text(
                field_of(field(res, "pane"@), "pane_id"@),
            ) != Some(pane) {
                Err("Herdr focused an unexpected pane while trying to "@ + operation)
            } else {
                Ok(())
            },
        },
    }
}

fn prefixed(prefix: &str, text: &str) -> (r: String)
    ensures
        r@ == prefix@ + text@,
{
    let mut message = String::from_str(prefix);
    append_str(&mut message, text);
    message
}

/// Focuses a pane through Herdr's API and checks that it was that pane.
pub fn focus_pane<A: Fn(&String, &Json) -> Result<Json, String>>(api: &A, pane_id: &str, operation: &str) -> (r:
    Result<(), String>)
    requires
        forall|m: &String, p: &Json| #[trigger] api.requires((m, p)),
    ensures
        exists|reply: Result<Json, String>| #[trigger]
            asked_focus(*api, pane_id@, reply) && outcome(r) == focus_outcome(reply, pane_id@, operation@),
{
    let method = text_arg("pane.focus");
    let mut fields: Vec<(String, Json)> = Vec::new();
    fields.push((text_arg("pane_id"), Json::String(text_arg(pane_id))));
    let params = Json::Object(fields);
    assert(focus_params(params, pane_id@));
    let reply = api(&method, &params);
    proof {
        let m = &method;
        let p = &params;
        assert(api.ensures((m, p), reply));
        assert(asked_focus(*api, pane_id@, reply));
    }
    let value = match &reply {
        Err(e) => {
            return Err(e.clone());
        },
        Ok(v) => v,
    };
    let result = match get(value, "result") {
        Some(x) => x,
        None => {
            return Err(prefixed("Herdr returned an invalid response while trying to ", operation));
        },
    };
    let kind_ok = match crate::json::text_member(result, "type") {
        Some(t) => str_eq(t.as_str(), "pane_info"),
        None => false,
    };
    let pane_ok = match as_text(get_of(get(result, "pane"), "pane_id")) {
        Some(p) => str_eq(p.as_str(), pane_id),
        None => false,
    };
    if !kind_ok || !pane_ok {
        return Err(prefixed("Herdr focused an unexpected pane while trying to ", operation));
    }
    Ok(())
}

/// What focusing a newly started agent's pane gives back: the pane, or the
/// reason focusing failed.
pub open spec fn focused_agent<A: Fn(&String, &Json) -> Result<Json, String>>(
    api: A,
    pane: Seq<char>,
    r: Result<String, String>,
) -> bool {
    exists|reply: Result<Json, String>| #[trigger]
        asked_focus(api, pane, reply) && match focus_outcome(reply, pane, "focus the new agent"@) {
            Ok(_) => text_outcome(r) == Ok::<Seq<char>, Seq<char>>(pane),
            Err(e) => text_outcome(r) == Err::<Seq<char>, Seq<char>>(e),
        }
}

/// Focuses the pane of a newly started agent.
pub fn focus_agent_pane<A: Fn(&String, &Json) -> Result<Json, String>>(pane_id: String, api: &A) -> (r: Result<
    String,
    String,
>)
    requires
        forall|m: &String, p: &Json| #[trigger] api.requires((m, p)),
    ensures
        focused_agent(*api, pane_id@, r),
{
    match focus_pane(api, pane_id.as_str(), "focus the new agent") {
        Ok(()) => Ok(pane_id),
        Err(e) => Err(e),
    }
}

/// What `opencode_command` makes of a session id.
pub open spec fn spec_opencode(session: Option<Seq<char>>) -> Result<Seq<char>, Seq<char>> {
    match session {
        None => Ok("opencode"@),
        Some(s) => if s.len() > 0 && forall|i: int| 0 <= i < s.len() ==> session_id_char(#[trigger] s[i]) {
            Ok("opencode --session "@ + s)
        } else {
            Err("OpenCode reported an invalid session ID"@)
        },
    }
}

pub open spec fn direction_text(d: AgentPaneDirection) -> Seq<char> {
    match d {
        AgentPaneDirection::Up => "up"@,
        AgentPaneDirection::Right => "right"@,
        AgentPaneDirection::Down => "down"@,
        AgentPaneDirection::Left => "left"@,
    }
}

/// `pane split <pane> --direction <d> --cwd <path> --no-focus`.
pub open spec fn split_args(pane: Seq<char>, direction: Seq<char>, path: Seq<char>) -> Seq<Seq<char>> {
    seq!["pane"@, "split"@, pane, "--direction"@, direction, "--cwd"@, path, "--no-focus"@]
}

/// The agent started in a new pane: its error closes the pane again.
pub open spec fn agent_run<R: Fn(&Vec<String>) -> Result<Json, String>>(
    runner: R,
    pane: Seq<char>,
    command: Seq<char>,
    r: Result<String, String>,
) -> bool {
    exists|x: Result<Json, String>| #[trigger]
        ran(runner, run_args(pane, command), x) && match x {
            Err(f) => text_outcome(r) == Err::<Seq<char>, Seq<char>>(f@) && exists|c: Result<Json, String>| #[trigger]
                ran(runner, close_args(pane), c),
            Ok(_) => text_outcome(r) == Ok::<Seq<char>, Seq<char>>(pane),
        }
}

/// Splits a new pane off `pane` and starts OpenCode in it.
pub open spec fn split_outcome<R: Fn(&Vec<String>) -> Result<Json, String>>(
    runner: R,
    path: Seq<char>,
    pane: Seq<char>,
    direction: AgentPaneDirection,
    session: Option<Seq<char>>,
    r: Result<String, String>,
) -> bool {
    match spec_opencode(session) {
        Err(e) => text_outcome(r) == Err::<Seq<char>, Seq<char>>(e),
        Ok(command) => exists|sp: Result<Json, String>| #[trigger]
            ran(runner, split_args(pane, direction_text(direction), path), sp) && match sp {
                Err(f) => text_outcome(r) == Err::<Seq<char>, Seq<char>>(f@),
                Ok(sv) => match new_pane_id(sv) {
                    None => text_outcome(r) == Err::<Seq<char>, Seq<char>>("Herdr did not identify the new pane"@),
                    Some(p) => agent_run(runner, p, command, r),
                },
            },
    }
}

fn opt_str(o: &Option<String>) -> (r: Option<&str>)
    ensures
        match r {
            Some(s) => o matches Some(x) && s@ == x@,
            None => o is None,
        },
{
    match o {
        Some(s) => Some(s.as_str()),
        None => None,
    }
}

fn start_agent_in<R: Fn(&Vec<String>) -> Result<Json, String>>(runner: &R, pane: String, command: String) -> (r:
    Result<String, String>)
    requires
        forall|a: &Vec<String>| #[trigger] runner.requires((a,)),
    ensures
        agent_run(*runner, pane@, command@, r),
{
    let ghost p = pane@;
    let ghost c = command@;
    let mut args: Vec<String> = Vec::new();
    args.push(text_arg("pane"));
    args.push(text_arg("run"));
    args.push(pane.clone());
    args.push(command);
    assert(args_view(args) =~= run_args(p, c));
    match call(runner, args) {
        Ok(_) => Ok(pane),
        Err(e) => {
            let mut close: Vec<String> = Vec::new();
            close.push(text_arg("pane"));
            close.push(text_arg("close"));
            close.push(pane);
            assert(args_view(close) =~= close_args(p));
            let _ = call(runner, close);
            Err(e)
        },
    }
}

/// Splits a new pane off `pane_id` in `direction` and starts OpenCode in it,
/// resuming `session_id` when given; a new pane whose agent fails to start
/// is closed again.
pub fn split_pane_with_agent_with<R: Fn(&Vec<String>) -> Result<Json, String>>(
    path: String,
    pane_id: String,
    direction: AgentPaneDirection,
    session_id: Option<String>,
    runner: &R,
) -> (r: Result<String, String>)
    requires
        forall|a: &Vec<String>| #[trigger] runner.requires((a,)),
    ensures
        split_outcome(*runner, path@, pane_id@, direction, opt_view(session_id), r),
{
    let command = match opencode_command(opt_str(&session_id)) {
        Ok(c) => c,
        Err(e) => {
            return Err(e);
        },
    };
    let ghost p = pane_id@;
    let ghost dir = direction_text(direction);
    let ghost cwd = path@;
    let mut args: Vec<String> = Vec::new();
    args.push(text_arg("pane"));
    args.push(text_arg("split"));
    args.push(pane_id);
    args.push(text_arg("--direction"));
    args.push(text_arg(direction.as_str()));
    args.push(text_arg("--cwd"));
    args.push(path);
    args.push(text_arg("--no-focus"));
    assert(args_view(args) =~= split_args(p, dir, cwd));
    let split = call(runner, args);
    let created = match &split {
        Err(e) => {
            return Err(e.clone());
        },
        Ok(v) => pane_id_of(v),
    };
    match created {
        Some(pane) => start_agent_in(runner, pane, command),
        None => Err(String::from_str("Herdr did not identify the new pane")),
    }
}

/// Starts OpenCode in a new pane split off `pane_id` and focuses it; only
/// inside Herdr.
pub fn split_pane_with_agent<R: Fn(&Vec<String>) -> Result<Json, String>, A: Fn(&String, &Json) -> Result<Json, String>>(
    inside_herdr: bool,
    path: String,
    pane_id: String,
    direction: AgentPaneDirection,
    session_id: Option<String>,
    runner: &R,
    api: &A,
) -> (r: Result<String, String>)
    requires
        forall|a: &Vec<String>| #[trigger] runner.requires((a,)),
        forall|m: &String, p: &Json| #[trigger] api.requires((m, p)),
    ensures
        !inside_herdr ==> (r matches Err(e) && e@ == "Agents can only be started inside Herdr"@),
        inside_herdr ==> exists|started: Result<String, String>| #[trigger]
            split_outcome(*runner, path@, pane_id@, direction, opt_view(session_id), started) && match started {
                Err(e) => r matches Err(x) && x@ == e@,
                Ok(p) => focused_agent(*api, p@, r),
            },
{
    if !inside_herdr {
        return Err(String::from_str("Agents can only be started inside Herdr"));
    }
    let started = split_pane_with_agent_with(path, pane_id, direction, session_id, runner);
    match started {
        Err(e) => Err(e),
        Ok(pane) => focus_agent_pane(pane, api),
    }
}

/// `pane get <pane>`.
pub open spec fn get_args(pane: Seq<char>) -> Seq<Seq<char>> {
    seq!["pane"@, "get"@, pane]
}

/// `pane process-info --pane <pane>`.
pub open spec fn info_args(pane: Seq<char>) -> Seq<Seq<char>> {
    seq!["pane"@, "process-info"@, "--pane"@, pane]
}

/// `pane move <pane> --new-tab --workspace <w> --label <label> --no-focus`.
pub open spec fn park_args(pane: Seq<char>, workspace: Seq<char>, label: Seq<char>) -> Seq<Seq<char>> {
    seq!["pane"@, "move"@, pane, "--new-tab"@, "--workspace"@, workspace, "--label"@, label, "--no-focus"@]
}

/// The label of the tab a displaced pane is parked in: the name of its
/// working directory, else `agent`.
pub open spec fn parked_label(pane_reply: Json) -> Seq<char> {
    match text(field_of(field_of(field(pane_reply, "result"@), "pane"@), "cwd"@)) {
        Some(cwd) => match crate::session::path_file_name(cwd) {
            Some(n) => if n.len() > 0 {
                n
            } else {
                "agent"@
            },
            None => "agent"@,
        },
        None => "agent"@,
    }
}

/// The command for a displaced pane, by the process information a reply
/// gave: close it when it only runs its shell, else park it in a new tab.
pub open spec fn displace_args(info: Result<Json, String>, old_pane: Seq<char>, workspace: Seq<char>, label: Seq<char>) -> Seq<
    Seq<char>,
> {
    let idle = match info {
        Ok(iv) => spec_idle_shell(iv),
        Err(_) => false,
    };
    if idle {
        close_args(old_pane)
    } else {
        park_args(old_pane, workspace, label)
    }
}

/// A displaced pane is closed or parked; when that fails the new pane is
/// closed again.
pub open spec fn displaced<R: Fn(&Vec<String>) -> Result<Json, String>>(
    runner: R,
    old_pane: Seq<char>,
    new_pane: Seq<char>,
    workspace: Seq<char>,
    label: Seq<char>,
    r: Result<String, String>,
) -> bool {
    exists|i: Result<Json, String>, d: Result<Json, String>|
        #[trigger] ran(runner, info_args(old_pane), i) && #[trigger] ran(
            runner,
            displace_args(i, old_pane, workspace, label),
            d,
        ) && match d {
            Err(f) => text_outcome(r) == Err::<Seq<char>, Seq<char>>(f@) && exists|c: Result<Json, String>| #[trigger]
                ran(runner, close_args(new_pane), c),
            Ok(_) => text_outcome(r) == Ok::<Seq<char>, Seq<char>>(new_pane),
        }
}

/// Runs OpenCode in the new pane `new_pane`; when it starts, the displaced
/// pane is closed or parked.
pub open spec fn replace_run<R: Fn(&Vec<String>) -> Result<Json, String>>(
    runner: R,
    pane: Seq<char>,
    new_pane: Seq<char>,
    command: Seq<char>,
    workspace: Seq<char>,
    label: Seq<char>,
    r: Result<String, String>,
) -> bool {
    exists|x: Result<Json, String>| #[trigger]
        ran(runner, run_args(new_pane, command), x) && match x {
            Err(f) => text_outcome(r) == Err::<Seq<char>, Seq<char>>(f@) && exists|c: Result<Json, String>| #[trigger]
                ran(runner, close_args(new_pane), c),
            Ok(_) => displaced(runner, pane, new_pane, workspace, label, r),
        }
}

/// Splits a new pane to the right of `pane`, then runs OpenCode in it.
pub open spec fn replace_split<R: Fn(&Vec<String>) -> Result<Json, String>>(
    runner: R,
    path: Seq<char>,
    workspace: Seq<char>,
    pane: Seq<char>,
    command: Seq<char>,
    label: Seq<char>,
    r: Result<String, String>,
) -> bool {
    exists|sp: Result<Json, String>| #[trigger]
        ran(runner, split_args(pane, "right"@, path), sp) && match sp {
            Err(f) => text_outcome(r) == Err::<Seq<char>, Seq<char>>(f@),
            Ok(sv) => match new_pane_id(sv) {
                None => text_outcome(r) == Err::<Seq<char>, Seq<char>>("Herdr did not identify the new pane"@),
                Some(p) => replace_run(runner, pane, p, command, workspace, label, r),
            },
        }
}

/// Reads `pane` for the label of its parking tab, then replaces it.
pub open spec fn replace_steps<R: Fn(&Vec<String>) -> Result<Json, String>>(
    runner: R,
    path: Seq<char>,
    workspace: Seq<char>,
    pane: Seq<char>,
    command: Seq<char>,
    r: Result<String, String>,
) -> bool {
    exists|g: Result<Json, String>| #[trigger]
        ran(runner, get_args(pane), g) && match g {
            Err(f) => text_outcome(r) == Err::<Seq<char>, Seq<char>>(f@),
            Ok(gv) => replace_split(runner, path, workspace, pane, command, parked_label(gv), r),
        }
}

/// Replaces `pane` with a new pane running OpenCode in `path`.
pub open spec fn replace_outcome<R: Fn(&Vec<String>) -> Result<Json, String>>(
    runner: R,
    path: Seq<char>,
    workspace: Seq<char>,
    pane: Seq<char>,
    session: Option<Seq<char>>,
    r: Result<String, String>,
) -> bool {
    match spec_opencode(session) {
        Err(e) => text_outcome(r) == Err::<Seq<char>, Seq<char>>(e),
        Ok(command) => replace_steps(runner, path, workspace, pane, command, r),
    }
}

proof fn lemma_displaced<R: Fn(&Vec<String>) -> Result<Json, String>>(
    runner: R,
    old_pane: Seq<char>,
    new_pane: Seq<char>,
    workspace: Seq<char>,
    label: Seq<char>,
    r: Result<String, String>,
    i: Result<Json, String>,
    d: Result<Json, String>,
)
    requires
        ran(runner, info_args(old_pane), i),
        ran(runner, displace_args(i, old_pane, workspace, label), d),
        match d {
            Err(f) => text_outcome(r) == Err::<Seq<char>, Seq<char>>(f@) && exists|c: Result<Json, String>| #[trigger]
                ran(runner, close_args(new_pane), c),
            Ok(_) => text_outcome(r) == Ok::<Seq<char>, Seq<char>>(new_pane),
        },
    ensures
        displaced(runner, old_pane, new_pane, workspace, label, r),
{
}

fn cwd_label(reply: &Json) -> (r: String)
    ensures
        r@ == parked_label(*reply),
{
    match as_text(get_of(get_of(get(reply, "result"), "pane"), "cwd")) {
        Some(cwd) => match crate::session::file_name_of(cwd.as_str()) {
            Some(n) => {
                let chars = crate::text::chars_of(n.as_str());
                if chars.len() > 0 {
                    n
                } else {
                    String::from_str("agent")
                }
            },
            None => String::from_str("agent"),
        },
        None => String::from_str("agent"),
    }
}

fn close_again<R: Fn(&Vec<String>) -> Result<Json, String>>(runner: &R, pane: String)
    requires
        forall|a: &Vec<String>| #[trigger] runner.requires((a,)),
    ensures
        exists|c: Result<Json, String>| #[trigger] ran(*runner, close_args(pane@), c),
{
    let ghost p = pane@;
    let mut close: Vec<String> = Vec::new();
    close.push(text_arg("pane"));
    close.push(text_arg("close"));
    close.push(pane);
    assert(args_view(close) =~= close_args(p));
    let _ = call(runner, close);
}

fn displace<R: Fn(&Vec<String>) -> Result<Json, String>>(
    runner: &R,
    old_pane: String,
    new_pane: String,
    workspace: String,
    label: String,
) -> (r: Result<String, String>)
    requires
        forall|a: &Vec<String>| #[trigger] runner.requires((a,)),
    ensures
        displaced(*runner, old_pane@, new_pane@, workspace@, label@, r),
{
    let ghost old = old_pane@;
    let ghost w0 = workspace@;
    let ghost l0 = label@;
    let mut info: Vec<String> = Vec::new();
    info.push(text_arg("pane"));
    info.push(text_arg("process-info"));
    info.push(text_arg("--pane"));
    info.push(old_pane.clone());
    assert(args_view(info) =~= info_args(old));
    let reply = call(runner, info);
    let idle = match &reply {
        Ok(v) => pane_is_idle_shell(v),
        Err(_) => false,
    };
    let ghost target = displace_args(reply, old, workspace@, label@);
    let mut args: Vec<String> = Vec::new();
    args.push(text_arg("pane"));
    if idle {
        args.push(text_arg("close"));
        args.push(old_pane);
        assert(args_view(args) =~= close_args(old));
    } else {
        let ghost w = workspace@;
        let ghost l = label@;
        args.push(text_arg("move"));
        args.push(old_pane);
        args.push(text_arg("--new-tab"));
        args.push(text_arg("--workspace"));
        args.push(workspace);
        args.push(text_arg("--label"));
        args.push(label);
        args.push(text_arg("--no-focus"));
        assert(args_view(args) =~= park_args(old, w, l));
    }
    assert(args_view(args) == target);
    let done = call(runner, args);
    let ghost np = new_pane@;
    proof {
        assert(ran(*runner, info_args(old), reply));
        assert(ran(*runner, target, done));
    }
    match done {
        Ok(_) => {
            let r: Result<String, String> = Ok(new_pane);
            proof {
                let i = reply;
                let idle_spec = match i {
                    Ok(iv) => spec_idle_shell(iv),
                    Err(_) => false,
                };
                assert(idle_spec == idle);
                lemma_displaced(*runner, old, np, w0, l0, r, reply, done);
            }
            r
        },
        Err(e) => {
            close_again(runner, new_pane);
            let r: Result<String, String> = Err(e);
            proof {
                lemma_displaced(*runner, old, np, w0, l0, r, reply, done);
            }
            r
        },
    }
}

/// Replaces `pane_id` with a new pane that runs OpenCode in `path`, resuming
/// `session_id` when given. The displaced pane is closed when it only runs
/// its shell, else parked in a new tab of `workspace_id`.
pub fn replace_pane_with_agent_with<R: Fn(&Vec<String>) -> Result<Json, String>>(
    path: String,
    workspace_id: String,
    pane_id: String,
    session_id: Option<String>,
    runner: &R,
) -> (r: Result<String, String>)
    requires
        forall|a: &Vec<String>| #[trigger] runner.requires((a,)),
    ensures
        replace_outcome(*runner, path@, workspace_id@, pane_id@, opt_view(session_id), r),
{
    let command = match opencode_command(opt_str(&session_id)) {
        Ok(c) => c,
        Err(e) => {
            return Err(e);
        },
    };
    let ghost p = pane_id@;
    let ghost cwd = path@;
    let mut get_v: Vec<String> = Vec::new();
    get_v.push(text_arg("pane"));
    get_v.push(text_arg("get"));
    get_v.push(pane_id.clone());
    assert(args_view(get_v) =~= get_args(p));
    let pane_reply = call(runner, get_v);
    let label = match &pane_reply {
        Err(e) => {
            return Err(e.clone());
        },
        Ok(v) => cwd_label(v),
    };
    let mut args: Vec<String> = Vec::new();
    args.push(text_arg("pane"));
    args.push(text_arg("split"));
    args.push(pane_id.clone());
    args.push(text_arg("--direction"));
    args.push(text_arg("right"));
    args.push(text_arg("--cwd"));
    args.push(path);
    args.push(text_arg("--no-focus"));
    assert(args_view(args) =~= split_args(p, "right"@, cwd));
    let split = call(runner, args);
    let created = match &split {
        Err(e) => {
            return Err(e.clone());
        },
        Ok(v) => pane_id_of(v),
    };
    let replacement = match created {
        Some(x) => x,
        None => {
            return Err(String::from_str("Herdr did not identify the new pane"));
        },
    };
    let ghost np = replacement@;
    let ghost cmd = command@;
    let mut run: Vec<String> = Vec::new();
    run.push(text_arg("pane"));
    run.push(text_arg("run"));
    run.push(replacement.clone());
    run.push(command);
    assert(args_view(run) =~= run_args(np, cmd));
    let ghost w = workspace_id@;
    let ghost l = label@;
    let ran_result = call(runner, run);
    let r = match ran_result {
        Err(e) => {
            close_again(runner, replacement);
            Err(e)
        },
        Ok(_) => displace(runner, pane_id, replacement, workspace_id, label),
    };
    proof {
        assert(replace_run(*runner, p, np, cmd, w, l, r));
        assert(replace_split(*runner, cwd, w, p, cmd, l, r));
        assert(replace_steps(*runner, cwd, w, p, cmd, r));
    }
    r
}

/// Replaces `pane_id` with a new OpenCode pane and focuses it; only inside Herdr.
pub fn replace_pane_with_agent<R: Fn(&Vec<String>) -> Result<Json, String>, A: Fn(&String, &Json) -> Result<
    Json,
    String,
>>(
    inside_herdr: bool,
    path: String,
    workspace_id: String,
    pane_id: String,
    session_id: Option<String>,
    runner: &R,
    api: &A,
) -> (r: Result<String, String>)
    requires
        forall|a: &Vec<String>| #[trigger] runner.requires((a,)),
        forall|m: &String, p: &Json| #[trigger] api.requires((m, p)),
    ensures
        !inside_herdr ==> (r matches Err(e) && e@ == "Agents can only be started inside Herdr"@),
        inside_herdr ==> exists|started: Result<String, String>| #[trigger]
            replace_outcome(*runner, path@, workspace_id@, pane_id@, opt_view(session_id), started) && match started {
                Err(e) => r matches Err(x) && x@ == e@,
                Ok(p) => focused_agent(*api, p@, r),
            },
{
    if !inside_herdr {
        return Err(String::from_str("Agents can only be started inside Herdr"));
    }
    let started = replace_pane_with_agent_with(path, workspace_id, pane_id, session_id, runner);
    match started {
        Err(e) => Err(e),
        Ok(pane) => focus_agent_pane(pane, api),
    }
}

/// The label of a new agent tab: the name of its directory, else `agent`.
pub open spec fn tab_label(path: Seq<char>) -> Seq<char> {
    match crate::session::path_file_name(path) {
        Some(n) => if n.len() > 0 {
            n
        } else {
            "agent"@
        },
        None => "agent"@,
    }
}

/// `tab create --workspace <w> --cwd <path> --label <label> --no-focus`.
pub open spec fn tab_args(workspace: Seq<char>, path: Seq<char>, label: Seq<char>) -> Seq<Seq<char>> {
    seq!["tab"@, "create"@, "--workspace"@, workspace, "--cwd"@, path, "--label"@, label, "--no-focus"@]
}

/// `agent start <name> --kind opencode --pane <pane> --timeout 30000`, with
/// `-- --session <id>` when a session is resumed.
pub open spec fn start_args(pane: Seq<char>, session: Option<Seq<char>>) -> Seq<Seq<char>> {
    let base = seq![
        "agent"@,
        "start"@,
        crate::client::spec_scheduler_agent_name(pane),
        "--kind"@,
        "opencode"@,
        "--pane"@,
        pane,
        "--timeout"@,
        "30000"@,
    ];
    match session {
        Some(s) => base + seq!["--"@, "--session"@, s],
        None => base,
    }
}

/// The root pane a `tab create` reply names.
pub open spec fn root_pane_id(v: Json) -> Option<Seq<char>> {
    text(field_of(field_of(field(v, "result"@), "root_pane"@), "pane_id"@))
}

/// The agent started in the new tab's pane `pane`: the outcome is the pane
/// when a start succeeded; after a failed start the pane was closed.
pub open spec fn agent_started<R: Fn(&Vec<String>) -> Result<Json, String>>(
    runner: R,
    pane: Seq<char>,
    session: Option<Seq<char>>,
    r: Result<String, String>,
) -> bool {
    &&& r is Ok ==> text_outcome(r) == Ok::<Seq<char>, Seq<char>>(pane) && exists|st: Json| #[trigger]
        ran(runner, start_args(pane, session), Ok(st))
    &&& r is Err ==> exists|c: Result<Json, String>| #[trigger] ran(runner, close_args(pane), c)
}

/// Opens a new tab in a workspace and starts OpenCode in it.
pub open spec fn tab_outcome<R: Fn(&Vec<String>) -> Result<Json, String>>(
    runner: R,
    path: Seq<char>,
    workspace: Seq<char>,
    session: Option<Seq<char>>,
    r: Result<String, String>,
) -> bool {
    match spec_opencode(session) {
        Err(e) => text_outcome(r) == Err::<Seq<char>, Seq<char>>(e),
        Ok(_) => exists|created: Result<Json, String>| #[trigger]
            ran(runner, tab_args(workspace, path, tab_label(path)), created) && match created {
                Err(f) => text_outcome(r) == Err::<Seq<char>, Seq<char>>(f@),
                Ok(cv) => match root_pane_id(cv) {
                    None => text_outcome(r) == Err::<Seq<char>, Seq<char>>("Herdr did not identify the new tab's pane"@),
                    Some(p) => agent_started(runner, p, session, r),
                },
            },
    }
}

fn start_command(pane: &String, session_id: &Option<String>) -> (r: Vec<String>)
    ensures
        args_view(r) == start_args(pane@, opt_view(*session_id)),
{
    let mut args: Vec<String> = Vec::new();
    args.push(text_arg("agent"));
    args.push(text_arg("start"));
    args.push(scheduler_agent_name(pane.as_str()));
    args.push(text_arg("--kind"));
    args.push(text_arg("opencode"));
    args.push(text_arg("--pane"));
    args.push(pane.clone());
    args.push(text_arg("--timeout"));
    args.push(text_arg("30000"));
    let ghost base = args_view(args);
    match session_id {
        Some(s) => {
            args.push(text_arg("--"));
            args.push(text_arg("--session"));
            args.push(s.clone());
            assert(args_view(args) =~= base + seq!["--"@, "--session"@, s@]);
        },
        None => {},
    }
    assert(base =~= seq![
        "agent"@,
        "start"@,
        crate::client::spec_scheduler_agent_name(pane@),
        "--kind"@,
        "opencode"@,
        "--pane"@,
        pane@,
        "--timeout"@,
        "30000"@,
    ]);
    args
}

/// A failed start waits for the pane's shell: the error says the pane is
/// not an available shell.
pub open spec fn spec_waiting_for_shell(result: Result<Json, String>) -> bool {
    match result {
        Err(e) => crate::text::contains_seq(e@, "is not an available shell"@),
        Ok(_) => false,
    }
}

/// Whether a failed start waits for the pane's shell.
fn waiting_for_shell(result: &Result<Json, String>) -> (r: bool)
    ensures
        r == spec_waiting_for_shell(*result),
{
    match result {
        Err(e) => {
            let hay = crate::text::chars_of(e.as_str());
            let needle = crate::text::chars_of("is not an available shell");
            crate::text::contains_chars(&hay, &needle)
        },
        Ok(_) => false,
    }
}

/// Opens a new tab in `workspace_id` at `path` and starts OpenCode in it,
/// resuming `session_id` when given. A start that fails because the shell
/// is not ready yet is tried again after `pause`, up to fifty times; a tab
/// whose agent fails to start is closed again.
pub fn create_tab_with_agent_with<R: Fn(&Vec<String>) -> Result<Json, String>, P: Fn()>(
    path: String,
    workspace_id: String,
    session_id: Option<String>,
    runner: &R,
    pause: &P,
) -> (r: Result<String, String>)
    requires
        forall|a: &Vec<String>| #[trigger] runner.requires((a,)),
        pause.requires(()),
    ensures
        tab_outcome(*runner, path@, workspace_id@, opt_view(session_id), r),
{
    match opencode_command(opt_str(&session_id)) {
        Ok(_) => {},
        Err(e) => {
            return Err(e);
        },
    }
    let label = match crate::session::file_name_of(path.as_str()) {
        Some(n) => {
            if crate::text::chars_of(n.as_str()).len() > 0 {
                n
            } else {
                String::from_str("agent")
            }
        },
        None => String::from_str("agent"),
    };
    let ghost w = workspace_id@;
    let ghost cwd = path@;
    let ghost l = label@;
    assert(l == tab_label(cwd));
    let mut args: Vec<String> = Vec::new();
    args.push(text_arg("tab"));
    args.push(text_arg("create"));
    args.push(text_arg("--workspace"));
    args.push(workspace_id);
    args.push(text_arg("--cwd"));
    args.push(path);
    args.push(text_arg("--label"));
    args.push(label);
    args.push(text_arg("--no-focus"));
    assert(args_view(args) =~= tab_args(w, cwd, l));
    let created = call(runner, args);
    let root = match &created {
        Err(e) => {
            return Err(e.clone());
        },
        Ok(v) => as_text(get_of(get_of(get(v, "result"), "root_pane"), "pane_id")),
    };
    let pane = match root {
        Some(p) => p,
        None => {
            return Err(String::from_str("Herdr did not identify the new tab's pane"));
        },
    };
    let ghost s = opt_view(session_id);
    let mut result = call(runner, start_command(&pane, &session_id));
    let mut retries: u32 = 0;
    while retries < 50 && waiting_for_shell(&result)
        invariant
            retries <= 50,
            s == opt_view(session_id),
            pause.requires(()),
            forall|a: &Vec<String>| #[trigger] runner.requires((a,)),
            ran(*runner, start_args(pane@, s), result),
        decreases 50 - retries,
    {
        pause();
        result = call(runner, start_command(&pane, &session_id));
        retries = retries + 1;
    }
    let r = match result {
        Ok(_) => Ok(pane),
        Err(error) => {
            let ghost p = pane@;
            let mut close: Vec<String> = Vec::new();
            close.push(text_arg("pane"));
            close.push(text_arg("close"));
            close.push(pane);
            assert(args_view(close) =~= close_args(p));
            match call(runner, close) {
                Ok(_) => Err(error),
                Err(cleanup) => {
                    let mut message = error;
                    append_str(&mut message, "; could not close the new tab: ");
                    append_str(&mut message, cleanup.as_str());
                    Err(message)
                },
            }
        },
    };
    r
}

/// `api snapshot`.
pub open spec fn snapshot_args() -> Seq<Seq<char>> {
    seq!["api"@, "snapshot"@]
}

/// What a snapshot reply gives, as `session_snapshot_with` reads it.
pub open spec fn snapshot_outcome(reply: Result<Json, String>, r: Result<SessionSnapshot, String>) -> bool {
    match reply {
        Err(f) => r matches Err(m) && m@ == f@,
        Ok(v) => match spec_snapshot(v) {
            Ok((ws, agents)) => r matches Ok(s) && s.workspaces@.map_values(
                |x: crate::session::HerdrWorkspace| crate::snapshot::workspace_view(x),
            ) == ws && s.agents@.map_values(|x: crate::agent::AgentPane| crate::snapshot::pane_view(x)) == agents
                && crate::snapshot::opt_text(s.focused_workspace_id) == crate::snapshot::spec_focused_workspace(v, ws),
            Err(e) => r matches Err(m) && m@ == e,
        },
    }
}

/// Takes a snapshot of Herdr's workspaces and agents.
pub fn session_snapshot<R: Fn(&Vec<String>) -> Result<Json, String>>(runner: &R) -> (r: Result<SessionSnapshot, String>)
    requires
        forall|a: &Vec<String>| #[trigger] runner.requires((a,)),
    ensures
        exists|reply: Result<Json, String>| #[trigger] ran(*runner, snapshot_args(), reply) && snapshot_outcome(reply, r),
{
    let mut args: Vec<String> = Vec::new();
    args.push(text_arg("api"));
    args.push(text_arg("snapshot"));
    assert(args_view(args) =~= snapshot_args());
    let reply = call(runner, args);
    match &reply {
        Err(e) => Err(e.clone()),
        Ok(v) => session_snapshot_with(v),
    }
}

/// `runner`, which reports structured errors, may answer `args` with `reply`.
pub open spec fn ran_json<R: Fn(&Vec<String>) -> Result<Json, CommandError>>(
    runner: R,
    args: Seq<Seq<char>>,
    reply: Result<Json, CommandError>,
) -> bool {
    exists|a: &Vec<String>| args_view(*a) == args && #[trigger] runner.ensures((a,), reply)
}

pub(crate) fn call_json<R: Fn(&Vec<String>) -> Result<Json, CommandError>>(runner: &R, args: Vec<String>) -> (r: Result<
    Json,
    CommandError,
>)
    requires
        forall|a: &Vec<String>| #[trigger] runner.requires((a,)),
    ensures
        ran_json(*runner, args_view(args), r),
{
    let r = runner(&args);
    proof {
        let a = &args;
        assert(runner.ensures((a,), r));
    }
    r
}

/// A reply that must hold a value: an empty one is an error.
pub open spec fn required(reply: Result<Json, CommandError>) -> Result<Json, (Option<Seq<char>>, Seq<char>)> {
    match reply {
        Ok(Json::Null) => Err((None, "Herdr returned an empty response"@)),
        Ok(v) => Ok(v),
        Err(e) => Err(crate::replies::error_view(e)),
    }
}

fn require_value(reply: Result<Json, CommandError>) -> (r: Result<Json, CommandError>)
    ensures
        match required(reply) {
            Ok(v) => r == Ok::<Json, CommandError>(v),
            Err(e) => r matches Err(x) && crate::replies::error_view(x) == e,
        },
{
    match reply {
        Ok(Json::Null) => Err(CommandError::unavailable(String::from_str("Herdr returned an empty response"))),
        other => other,
    }
}

/// Takes a snapshot with a runner that reports structured errors, as the
/// probe at startup does.
pub fn probe_session_snapshot<R: Fn(&Vec<String>) -> Result<Json, CommandError>>(runner: &R) -> (r: Result<
    SessionSnapshot,
    String,
>)
    requires
        forall|a: &Vec<String>| #[trigger] runner.requires((a,)),
    ensures
        exists|reply: Result<Json, CommandError>| #[trigger]
            ran_json(*runner, snapshot_args(), reply) && snapshot_outcome(
                match reply {
                    Ok(v) => Ok(v),
                    Err(e) => Err(e.message),
                },
                r,
            ),
{
    let mut args: Vec<String> = Vec::new();
    args.push(text_arg("api"));
    args.push(text_arg("snapshot"));
    assert(args_view(args) =~= snapshot_args());
    let reply = call_json(runner, args);
    match &reply {
        Err(e) => Err(e.message.clone()),
        Ok(v) => session_snapshot_with(v),
    }
}

/// What observing a scheduled run's agent found.
#[derive(Debug)]
pub enum SchedulerObserveResult {
    Observed(AgentStatus),
    Missing(String),
    Unavailable(String),
}

pub enum ObserveView {
    Observed(AgentStatus),
    Missing(Seq<char>),
    Unavailable(Seq<char>),
}

pub open spec fn observe_view(r: SchedulerObserveResult) -> ObserveView {
    match r {
        SchedulerObserveResult::Observed(s) => ObserveView::Observed(s),
        SchedulerObserveResult::Missing(m) => ObserveView::Missing(m@),
        SchedulerObserveResult::Unavailable(m) => ObserveView::Unavailable(m@),
    }
}

/// `agent get <pane>`.
pub open spec fn agent_get_args(pane: Seq<char>) -> Seq<Seq<char>> {
    seq!["agent"@, "get"@, pane]
}

/// Reads the agent in `pane`: missing when Herdr knows no such agent.
pub open spec fn observe_get<R: Fn(&Vec<String>) -> Result<Json, CommandError>>(
    runner: R,
    pane: Seq<char>,
    r: ObserveView,
) -> bool {
    exists|g: Result<Json, CommandError>| #[trigger]
        ran_json(runner, agent_get_args(pane), g) && match required(g) {
            Err((code, message)) => if code == Some("agent_not_found"@) {
                r == ObserveView::Missing(message)
            } else {
                r == ObserveView::Unavailable(message)
            },
            Ok(v) => match crate::replies::spec_scheduler_agent(v, pane) {
                Ok(agent) => r == ObserveView::Observed(
                    crate::agent::spec_parse_agent_status(crate::json::text_field(agent, "agent_status"@)),
                ),
                Err(e) => r == ObserveView::Unavailable(e),
            },
        }
}

/// The first agent that runs in the terminal `terminal`.
pub open spec fn first_in_terminal(agents: Seq<crate::snapshot::AgentPaneView>, terminal: Seq<char>) -> Option<
    crate::snapshot::AgentPaneView,
>
    decreases agents.len(),
{
    if agents.len() == 0 {
        None
    } else if agents[0].terminal_id == Some(terminal) {
        Some(agents[0])
    } else {
        first_in_terminal(agents.drop_first(), terminal)
    }
}

/// Finds the agent of a terminal in a snapshot, then reads it.
pub open spec fn observe_terminal<R: Fn(&Vec<String>) -> Result<Json, CommandError>>(
    runner: R,
    terminal: Seq<char>,
    r: ObserveView,
) -> bool {
    exists|sn: Result<Json, CommandError>| #[trigger]
        ran_json(runner, snapshot_args(), sn) && match required(sn) {
            Err((_, message)) => r == ObserveView::Unavailable(message),
            Ok(v) => match spec_snapshot(v) {
                Err(e) => r == ObserveView::Unavailable(e),
                Ok((_, agents)) => match first_in_terminal(agents, terminal) {
                    None => r == ObserveView::Missing("agent terminal "@ + terminal + " not found"@),
                    Some(a) => observe_get(runner, a.pane_id, r),
                },
            },
        }
}

fn observe_pane<R: Fn(&Vec<String>) -> Result<Json, CommandError>>(runner: &R, pane: &str) -> (r: SchedulerObserveResult)
    requires
        forall|a: &Vec<String>| #[trigger] runner.requires((a,)),
    ensures
        observe_get(*runner, pane@, observe_view(r)),
{
    let mut args: Vec<String> = Vec::new();
    args.push(text_arg("agent"));
    args.push(text_arg("get"));
    args.push(text_arg(pane));
    assert(args_view(args) =~= agent_get_args(pane@));
    let reply = call_json(runner, args);
    let ghost g = reply;
    match require_value(reply) {
        Err(error) => {
            let not_found = match &error.code {
                Some(c) => str_eq(c.as_str(), "agent_not_found"),
                None => false,
            };
            if not_found {
                SchedulerObserveResult::Missing(error.message)
            } else {
                SchedulerObserveResult::Unavailable(error.message)
            }
        },
        Ok(value) => match crate::replies::scheduler_agent_status(&value, pane) {
            Ok(status) => SchedulerObserveResult::Observed(status),
            Err(e) => SchedulerObserveResult::Unavailable(e),
        },
    }
}

/// Observes the agent of a scheduled run: by its terminal when it has one
/// (its pane may have changed), else by its pane.
pub fn scheduler_observe_with<R: Fn(&Vec<String>) -> Result<Json, CommandError>>(
    pane_id: &str,
    terminal_id: Option<&str>,
    runner: &R,
) -> (r: SchedulerObserveResult)
    requires
        forall|a: &Vec<String>| #[trigger] runner.requires((a,)),
    ensures
        match terminal_id {
            None => observe_get(*runner, pane_id@, observe_view(r)),
            Some(t) => observe_terminal(*runner, t@, observe_view(r)),
        },
{
    let terminal = match terminal_id {
        None => {
            return observe_pane(runner, pane_id);
        },
        Some(t) => t,
    };
    let mut args: Vec<String> = Vec::new();
    args.push(text_arg("api"));
    args.push(text_arg("snapshot"));
    assert(args_view(args) =~= snapshot_args());
    let reply = call_json(runner, args);
    let ghost sn = reply;
    let value = match require_value(reply) {
        Err(error) => {
            return SchedulerObserveResult::Unavailable(error.message);
        },
        Ok(v) => v,
    };
    let agents = match crate::snapshot::parse_snapshot(&value) {
        Err(e) => {
            return SchedulerObserveResult::Unavailable(e);
        },
        Ok((_, agents)) => agents,
    };
    let ghost views = agents@.map_values(|x: crate::agent::AgentPane| crate::snapshot::pane_view(x));
    let mut i: usize = 0;
    assert(views.skip(0) =~= views);
    while i < agents.len()
        invariant
            i <= agents.len(),
            views == agents@.map_values(|x: crate::agent::AgentPane| crate::snapshot::pane_view(x)),
            first_in_terminal(views, terminal@) == first_in_terminal(views.skip(i as int), terminal@),
            forall|a: &Vec<String>| #[trigger] runner.requires((a,)),
            terminal_id == Some(terminal),
            ran_json(*runner, snapshot_args(), sn),
            required(sn) == Ok::<Json, (Option<Seq<char>>, Seq<char>)>(value),
            match spec_snapshot(value) {
                Ok((_, a)) => a == views,
                Err(_) => false,
            },
        decreases agents.len() - i,
    {
        let ghost rest = views.skip(i as int);
        assert(rest[0] == views[i as int]);
        let matches = match &agents[i].terminal_id {
            Some(t) => str_eq(t.as_str(), terminal),
            None => false,
        };
        if matches {
            return observe_pane(runner, agents[i].pane_id.as_str());
        }
        assert(rest.drop_first() =~= views.skip(i + 1));
        i = i + 1;
    }
    let mut message = String::from_str("agent terminal ");
    append_str(&mut message, terminal);
    append_str(&mut message, " not found");
    SchedulerObserveResult::Missing(message)
}

} // verus!
