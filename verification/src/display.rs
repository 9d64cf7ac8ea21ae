//! Showing an agent's layout in Hunkle's tab: the agent's panes move into
//! Hunkle's tab and Hunkle's previous agent layout moves out to the agent's
//! tab, pane by pane, through Herdr's command line and API. Every exchange is
//! checked against the layouts Herdr exports afterwards, and a failed one is
//! undone.
//!
//! Commands go through a runner and API requests through an API function
//! that the caller provides. A split's ratio stays the bits of Herdr's `f32`;
//! the caller writes it as text for a command (`ratio_text`) and decides when
//! two ratios are the same (`ratio_close`).
use vstd::prelude::*;
use crate::agent::str_eq;
use crate::commands::{
    args_view, asked_focus, call, focus_outcome, focus_pane, outcome, park_args, ran, text_arg, text_outcome,
};
use crate::json::{as_flag, as_text, field, field_of, flag, get, get_of, text, text_field, text_member, Json};
use crate::layout::{
    unavailable_message, LayoutDirection, LiveLayout, LiveLayoutNode, LivePaneLocation, PaneLocations,
};
use crate::replies::{exported_layout, live_layout_view, spec_exported_layout, LiveLayoutView};
use crate::text::append_str;

verus! {

/// The bits of the `f32` one half, the ratio of a pane moved in beside another.
pub const HALF_RATIO_BITS: u32 = 0x3f00_0000;

/// The direction's name on Herdr's command line.
pub open spec fn direction_name(d: LayoutDirection) -> Seq<char> {
    match d {
        LayoutDirection::Right => "right"@,
        LayoutDirection::Down => "down"@,
    }
}

/// `p` is an object with the one text member `key` set to `value`.
pub open spec fn single_param(p: Json, key: Seq<char>, value: Seq<char>) -> bool {
    match p {
        Json::Object(f) => f@.len() == 1 && f@[0].0@ == key && match f@[0].1 {
            Json::String(s) => s@ == value,
            _ => false,
        },
        _ => false,
    }
}

/// `api` may answer the request `method` with `{key: value}` by `reply`.
pub open spec fn asked<A: Fn(&String, &Json) -> Result<Json, String>>(
    api: A,
    method: Seq<char>,
    key: Seq<char>,
    value: Seq<char>,
    reply: Result<Json, String>,
) -> bool {
    exists|m: &String, p: &Json| m@ == method && single_param(*p, key, value) && #[trigger] api.ensures((m, p), reply)
}

fn ask<A: Fn(&String, &Json) -> Result<Json, String>>(api: &A, method: &str, key: &str, value: &str) -> (r: Result<
    Json,
    String,
>)
    requires
        forall|m: &String, p: &Json| #[trigger] api.requires((m, p)),
    ensures
        asked(*api, method@, key@, value@, r),
{
    let m = text_arg(method);
    let mut fields: Vec<(String, Json)> = Vec::new();
    fields.push((text_arg(key), Json::String(text_arg(value))));
    let params = Json::Object(fields);
    assert(single_param(params, key@, value@));
    let reply = api(&m, &params);
    proof {
        let mr = &m;
        let pr = &params;
        assert(api.ensures((mr, pr), reply));
    }
    reply
}

/// An exported layout by value, or why there is none.
pub open spec fn layout_outcome(r: Result<LiveLayout, String>) -> Result<LiveLayoutView, Seq<char>> {
    match r {
        Ok(l) => Ok(live_layout_view(l)),
        Err(e) => Err(e@),
    }
}

/// The layout of tab `tab` is exported; the reply decides.
pub open spec fn exported<A: Fn(&String, &Json) -> Result<Json, String>>(
    api: A,
    tab: Seq<char>,
    r: Result<LiveLayoutView, Seq<char>>,
) -> bool {
    exists|reply: Result<Json, String>| #[trigger]
        asked(api, "layout.export"@, "tab_id"@, tab, reply) && match reply {
            Err(e) => r == Err::<LiveLayoutView, Seq<char>>(e@),
            Ok(v) => r == spec_exported_layout(v),
        }
}

/// Exports the layout of a tab.
pub fn export_layout<A: Fn(&String, &Json) -> Result<Json, String>>(api: &A, tab_id: &str) -> (r: Result<
    LiveLayout,
    String,
>)
    requires
        forall|m: &String, p: &Json| #[trigger] api.requires((m, p)),
    ensures
        exported(*api, tab_id@, layout_outcome(r)),
{
    let reply = ask(api, "layout.export", "tab_id", tab_id);
    let ghost g = reply;
    match reply {
        Err(e) => Err(e),
        Ok(v) => exported_layout(&v),
    }
}

pub open spec fn invalid_result(operation: Seq<char>) -> Seq<char> {
    "Herdr returned an invalid "@ + operation + " result"@
}

/// The result member `key` of a layout command's reply, when Herdr reports
/// that the layout changed.
pub open spec fn spec_require_changed(v: Json, key: Seq<char>, operation: Seq<char>) -> Result<Json, Seq<char>> {
    match field_of(field(v, "result"@), key) {
        None => Err(invalid_result(operation)),
        Some(res) => match flag(field(res, "changed"@)) {
            Some(true) => Ok(res),
            Some(false) => Err(
                "Herdr did not change the layout: "@ + match text_field(res, "reason"@) {
                    Some(t) => t,
                    None => "unchanged"@,
                },
            ),
            None => Err(invalid_result(operation)),
        },
    }
}

fn invalid_result_error(operation: &str) -> (r: String)
    ensures
        r@ == invalid_result(operation@),
{
    let mut message = String::from_str("Herdr returned an invalid ");
    append_str(&mut message, operation);
    append_str(&mut message, " result");
    message
}

pub fn require_changed<'a>(value: &'a Json, key: &str, operation: &str) -> (r: Result<&'a Json, String>)
    ensures
        match spec_require_changed(*value, key@, operation@) {
            Ok(res) => r matches Ok(x) && *x == res,
            Err(e) => r matches Err(m) && m@ == e,
        },
{
    let result = match get_of(get(value, "result"), key) {
        Some(res) => res,
        None => {
            return Err(invalid_result_error(operation));
        },
    };
    match as_flag(get(result, "changed")) {
        Some(true) => Ok(result),
        Some(false) => {
            let mut message = String::from_str("Herdr did not change the layout: ");
            match text_member(result, "reason") {
                Some(reason) => append_str(&mut message, reason.as_str()),
                None => append_str(&mut message, "unchanged"),
            }
            Err(message)
        },
        None => Err(invalid_result_error(operation)),
    }
}

/// `pane move <pane> --tab <tab> --target-pane <target> --split <d> --ratio <r> --no-focus`.
pub open spec fn move_args(
    pane: Seq<char>,
    tab: Seq<char>,
    target: Seq<char>,
    direction: LayoutDirection,
    ratio: Seq<char>,
) -> Seq<Seq<char>> {
    seq![
        "pane"@,
        "move"@,
        pane,
        "--tab"@,
        tab,
        "--target-pane"@,
        target,
        "--split"@,
        direction_name(direction),
        "--ratio"@,
        ratio,
        "--no-focus"@,
    ]
}

/// `ratio_text` may write the ratio with the bits `bits` as `text`.
pub open spec fn ratio_written<T: Fn(u32) -> String>(ratio_text: T, bits: u32, text: Seq<char>) -> bool {
    exists|s: String| s@ == text && #[trigger] ratio_text.ensures((bits,), s)
}

/// The pane a move result names.
pub open spec fn moved_pane(res: Json) -> Option<Seq<char>> {
    text(field_of(field(res, "pane"@), "pane_id"@))
}

/// The tab a move result names.
pub open spec fn moved_tab(res: Json) -> Option<Seq<char>> {
    text(field_of(field(res, "pane"@), "tab_id"@))
}

/// Saved panes by value: each pane's live id and tab.
pub type Locations = Map<Seq<char>, LivePaneLocation>;

/// `p1` is `p0` with the saved pane `pane` now at `(live, tab)`.
pub open spec fn relocated(p0: Locations, p1: Locations, pane: Seq<char>, live: Seq<char>, tab: Seq<char>) -> bool {
    p1 == p0.insert(pane, p1[pane]) && p1[pane]@ == (live, tab)
}

/// A move was run with `args`; its reply decides where `pane` lives now.
pub open spec fn move_ran<R: Fn(&Vec<String>) -> Result<Json, String>>(
    runner: R,
    p0: Locations,
    pane: Seq<char>,
    tab: Seq<char>,
    args: Seq<Seq<char>>,
    p1: Locations,
    r: Result<Seq<char>, Seq<char>>,
) -> bool {
    exists|reply: Result<Json, String>| #[trigger]
        ran(runner, args, reply) && match reply {
            Err(e) => r == Err::<Seq<char>, Seq<char>>(e@) && p1 == p0,
            Ok(v) => match spec_require_changed(v, "move_result"@, "pane move"@) {
                Err(e) => r == Err::<Seq<char>, Seq<char>>(e) && p1 == p0,
                Ok(res) => match moved_pane(res) {
                    None => r == Err::<Seq<char>, Seq<char>>("Herdr returned an invalid pane move result"@) && p1 == p0,
                    Some(m) => if moved_tab(res) != Some(tab) {
                        r == Err::<Seq<char>, Seq<char>>("Herdr moved a pane to an unexpected tab"@) && p1 == p0
                    } else {
                        r == Ok::<Seq<char>, Seq<char>>(m) && relocated(p0, p1, pane, m, tab)
                    },
                },
            },
        }
}

/// The move with the ratio written out.
pub open spec fn move_written<R: Fn(&Vec<String>) -> Result<Json, String>, T: Fn(u32) -> String>(
    runner: R,
    ratio_text: T,
    p0: Locations,
    pane: Seq<char>,
    tab: Seq<char>,
    target_live: Seq<char>,
    direction: LayoutDirection,
    bits: u32,
    p1: Locations,
    r: Result<Seq<char>, Seq<char>>,
) -> bool {
    exists|t: Seq<char>| #[trigger]
        ratio_written(ratio_text, bits, t) && move_ran(
            runner,
            p0,
            pane,
            tab,
            move_args(p0[pane].pane_id@, tab, target_live, direction, t),
            p1,
            r,
        )
}

pub open spec fn already_in_tab(pane: Seq<char>, tab: Seq<char>) -> Seq<char> {
    "Saved layout pane "@ + pane + " is already in tab "@ + tab
}

pub open spec fn target_elsewhere(target: Seq<char>, tab: Seq<char>) -> Seq<char> {
    "Saved layout target "@ + target + " is not in tab "@ + tab
}

/// Moving the saved pane `pane` into tab `tab`, beside the saved pane
/// `target` that is there already.
pub open spec fn move_outcome<R: Fn(&Vec<String>) -> Result<Json, String>, T: Fn(u32) -> String>(
    runner: R,
    ratio_text: T,
    p0: Locations,
    pane: Seq<char>,
    tab: Seq<char>,
    target: Seq<char>,
    direction: LayoutDirection,
    bits: u32,
    p1: Locations,
    r: Result<Seq<char>, Seq<char>>,
) -> bool {
    if !p0.dom().contains(pane) {
        r == Err::<Seq<char>, Seq<char>>(unavailable_message(pane)) && p1 == p0
    } else if !p0.dom().contains(target) {
        r == Err::<Seq<char>, Seq<char>>(unavailable_message(target)) && p1 == p0
    } else if p0[pane].tab_id@ == tab {
        r == Err::<Seq<char>, Seq<char>>(already_in_tab(p0[pane].pane_id@, tab)) && p1 == p0
    } else if p0[target].tab_id@ != tab {
        r == Err::<Seq<char>, Seq<char>>(target_elsewhere(p0[target].pane_id@, tab)) && p1 == p0
    } else {
        move_written(runner, ratio_text, p0, pane, tab, p0[target].pane_id@, direction, bits, p1, r)
    }
}

fn unavailable(pane: &str) -> (r: String)
    ensures
        r@ == unavailable_message(pane@),
{
    let mut message = String::from_str("Saved layout pane ");
    append_str(&mut message, pane);
    append_str(&mut message, " is unavailable");
    message
}

fn phrase(a: &str, b: &str, c: &str, d: &str) -> (r: String)
    ensures
        r@ == a@ + b@ + c@ + d@,
{
    let mut message = String::from_str(a);
    append_str(&mut message, b);
    append_str(&mut message, c);
    append_str(&mut message, d);
    message
}

fn move_command(pane: &str, tab: &str, target: &str, direction: LayoutDirection, ratio: String) -> (r: Vec<String>)
    ensures
        args_view(r) == move_args(pane@, tab@, target@, direction, ratio@),
{
    let ghost t = ratio@;
    let mut args: Vec<String> = Vec::new();
    args.push(text_arg("pane"));
    args.push(text_arg("move"));
    args.push(text_arg(pane));
    args.push(text_arg("--tab"));
    args.push(text_arg(tab));
    args.push(text_arg("--target-pane"));
    args.push(text_arg(target));
    args.push(text_arg("--split"));
    args.push(text_arg(direction.as_str()));
    args.push(text_arg("--ratio"));
    args.push(ratio);
    args.push(text_arg("--no-focus"));
    assert(args_view(args) =~= move_args(pane@, tab@, target@, direction, t));
    args
}

/// Moves a saved pane into a tab, beside a saved pane there, and records
/// where it lives now.
pub fn move_layout_pane<R: Fn(&Vec<String>) -> Result<Json, String>, T: Fn(u32) -> String>(
    runner: &R,
    ratio_text: &T,
    panes: &mut PaneLocations,
    pane: &str,
    tab_id: &str,
    target: &str,
    direction: LayoutDirection,
    ratio_bits: u32,
) -> (r: Result<String, String>)
    requires
        old(panes).wf(),
        forall|a: &Vec<String>| #[trigger] runner.requires((a,)),
        forall|b: u32| #[trigger] ratio_text.requires((b,)),
    ensures
        final(panes).wf(),
        move_outcome(
            *runner,
            *ratio_text,
            old(panes)@,
            pane@,
            tab_id@,
            target@,
            direction,
            ratio_bits,
            final(panes)@,
            text_outcome(r),
        ),
{
    let (live, live_tab) = match panes.get(pane) {
        Some(location) => (location.pane_id.clone(), location.tab_id.clone()),
        None => {
            return Err(unavailable(pane));
        },
    };
    let target_live = match panes.get(target) {
        Some(location) => {
            if !str_eq(location.tab_id.as_str(), tab_id) {
                if str_eq(live_tab.as_str(), tab_id) {
                    return Err(phrase("Saved layout pane ", live.as_str(), " is already in tab ", tab_id));
                }
                return Err(phrase("Saved layout target ", location.pane_id.as_str(), " is not in tab ", tab_id));
            }
            location.pane_id.clone()
        },
        None => {
            return Err(unavailable(target));
        },
    };
    if str_eq(live_tab.as_str(), tab_id) {
        return Err(phrase("Saved layout pane ", live.as_str(), " is already in tab ", tab_id));
    }
    let ghost p0 = panes@;
    let text = ratio_text(ratio_bits);
    proof {
        assert(ratio_text.ensures((ratio_bits,), text));
        assert(ratio_written(*ratio_text, ratio_bits, text@));
    }
    let ghost t = text@;
    let args = move_command(live.as_str(), tab_id, target_live.as_str(), direction, text);
    let reply = call(runner, args);
    let ghost g = reply;
    let value = match reply {
        Err(e) => {
            assert(move_ran(*runner, p0, pane@, tab_id@, move_args(live@, tab_id@, target_live@, direction, t), p0, Err(e@)));
            return Err(e);
        },
        Ok(v) => v,
    };
    let result = match require_changed(&value, "move_result", "pane move") {
        Err(e) => {
            return Err(e);
        },
        Ok(res) => res,
    };
    let moved = match as_text(get_of(get(result, "pane"), "pane_id")) {
        Some(m) => m,
        None => {
            return Err(String::from_str("Herdr returned an invalid pane move result"));
        },
    };
    let landed = match as_text(get_of(get(result, "pane"), "tab_id")) {
        Some(t) => str_eq(t.as_str(), tab_id),
        None => false,
    };
    if !landed {
        return Err(String::from_str("Herdr moved a pane to an unexpected tab"));
    }
    panes.insert(pane.to_owned(), LivePaneLocation { pane_id: moved.clone(), tab_id: tab_id.to_owned() });
    assert(relocated(p0, panes@, pane@, moved@, tab_id@));
    Ok(moved)
}

/// `pane swap --source-pane <source> --target-pane <target>`.
pub open spec fn swap_args(source: Seq<char>, target: Seq<char>) -> Seq<Seq<char>> {
    seq!["pane"@, "swap"@, "--source-pane"@, source, "--target-pane"@, target]
}

pub open spec fn swap_ran<R: Fn(&Vec<String>) -> Result<Json, String>>(
    runner: R,
    args: Seq<Seq<char>>,
    r: Result<(), Seq<char>>,
) -> bool {
    exists|reply: Result<Json, String>| #[trigger]
        ran(runner, args, reply) && match reply {
            Err(e) => r == Err::<(), Seq<char>>(e@),
            Ok(v) => match spec_require_changed(v, "swap"@, "pane swap"@) {
                Err(e) => r == Err::<(), Seq<char>>(e),
                Ok(_) => r == Ok::<(), Seq<char>>(()),
            },
        }
}

/// Swapping the live panes of the saved panes `source` and `target`.
pub open spec fn swap_outcome<R: Fn(&Vec<String>) -> Result<Json, String>>(
    runner: R,
    p: Locations,
    source: Seq<char>,
    target: Seq<char>,
    r: Result<(), Seq<char>>,
) -> bool {
    if !p.dom().contains(source) {
        r == Err::<(), Seq<char>>(unavailable_message(source))
    } else if !p.dom().contains(target) {
        r == Err::<(), Seq<char>>(unavailable_message(target))
    } else {
        swap_ran(runner, swap_args(p[source].pane_id@, p[target].pane_id@), r)
    }
}

/// Swaps the live panes of two saved panes.
pub fn swap_layout_panes<R: Fn(&Vec<String>) -> Result<Json, String>>(
    runner: &R,
    panes: &PaneLocations,
    source: &str,
    target: &str,
) -> (r: Result<(), String>)
    requires
        panes.wf(),
        forall|a: &Vec<String>| #[trigger] runner.requires((a,)),
    ensures
        swap_outcome(*runner, panes@, source@, target@, outcome(r)),
{
    let source_live = match panes.get(source) {
        Some(location) => location.pane_id.clone(),
        None => {
            return Err(unavailable(source));
        },
    };
    let target_live = match panes.get(target) {
        Some(location) => location.pane_id.clone(),
        None => {
            return Err(unavailable(target));
        },
    };
    let mut args: Vec<String> = Vec::new();
    args.push(text_arg("pane"));
    args.push(text_arg("swap"));
    args.push(text_arg("--source-pane"));
    args.push(source_live.clone());
    args.push(text_arg("--target-pane"));
    args.push(target_live.clone());
    assert(args_view(args) =~= swap_args(source_live@, target_live@));
    let reply = call(runner, args);
    let ghost g = reply;
    match reply {
        Err(e) => Err(e),
        Ok(v) => match require_changed(&v, "swap", "pane swap") {
            Err(e) => Err(e),
            Ok(_) => Ok(()),
        },
    }
}

/// A new-tab move was run with `args`; its reply decides where `pane` lives now.
pub open spec fn parked_ran<R: Fn(&Vec<String>) -> Result<Json, String>>(
    runner: R,
    p0: Locations,
    pane: Seq<char>,
    args: Seq<Seq<char>>,
    p1: Locations,
    r: Result<(Seq<char>, Seq<char>), Seq<char>>,
) -> bool {
    exists|reply: Result<Json, String>| #[trigger]
        ran(runner, args, reply) && match reply {
            Err(e) => r == Err::<(Seq<char>, Seq<char>), Seq<char>>(e@) && p1 == p0,
            Ok(v) => match spec_require_changed(v, "move_result"@, "pane move"@) {
                Err(e) => r == Err::<(Seq<char>, Seq<char>), Seq<char>>(e) && p1 == p0,
                Ok(res) => match (moved_pane(res), moved_tab(res)) {
                    (Some(m), Some(t)) => r == Ok::<(Seq<char>, Seq<char>), Seq<char>>((m, t)) && relocated(
                        p0,
                        p1,
                        pane,
                        m,
                        t,
                    ),
                    _ => r == Err::<(Seq<char>, Seq<char>), Seq<char>>("Herdr returned an invalid pane move result"@)
                        && p1 == p0,
                },
            },
        }
}

/// Moving the saved pane `pane` to a new tab of `workspace` labelled `label`.
pub open spec fn parked_outcome<R: Fn(&Vec<String>) -> Result<Json, String>>(
    runner: R,
    p0: Locations,
    pane: Seq<char>,
    workspace: Seq<char>,
    label: Seq<char>,
    p1: Locations,
    r: Result<(Seq<char>, Seq<char>), Seq<char>>,
) -> bool {
    if !p0.dom().contains(pane) {
        r == Err::<(Seq<char>, Seq<char>), Seq<char>>(unavailable_message(pane)) && p1 == p0
    } else {
        parked_ran(runner, p0, pane, park_args(p0[pane].pane_id@, workspace, label), p1, r)
    }
}

pub open spec fn location_outcome(r: Result<LivePaneLocation, String>) -> Result<(Seq<char>, Seq<char>), Seq<char>> {
    match r {
        Ok(l) => Ok(l@),
        Err(e) => Err(e@),
    }
}

/// Moves a saved pane to a new tab of its own and records where it lives now.
pub fn move_pane_to_new_tab<R: Fn(&Vec<String>) -> Result<Json, String>>(
    runner: &R,
    panes: &mut PaneLocations,
    pane: &str,
    workspace_id: &str,
    label: &str,
) -> (r: Result<LivePaneLocation, String>)
    requires
        old(panes).wf(),
        forall|a: &Vec<String>| #[trigger] runner.requires((a,)),
    ensures
        final(panes).wf(),
        parked_outcome(*runner, old(panes)@, pane@, workspace_id@, label@, final(panes)@, location_outcome(r)),
{
    let live = match panes.get(pane) {
        Some(location) => location.pane_id.clone(),
        None => {
            return Err(unavailable(pane));
        },
    };
    let ghost p0 = panes@;
    let mut args: Vec<String> = Vec::new();
    args.push(text_arg("pane"));
    args.push(text_arg("move"));
    args.push(live.clone());
    args.push(text_arg("--new-tab"));
    args.push(text_arg("--workspace"));
    args.push(text_arg(workspace_id));
    args.push(text_arg("--label"));
    args.push(text_arg(label));
    args.push(text_arg("--no-focus"));
    assert(args_view(args) =~= park_args(live@, workspace_id@, label@));
    let reply = call(runner, args);
    let ghost g = reply;
    let value = match reply {
        Err(e) => {
            return Err(e);
        },
        Ok(v) => v,
    };
    let result = match require_changed(&value, "move_result", "pane move") {
        Err(e) => {
            return Err(e);
        },
        Ok(res) => res,
    };
    let moved = as_text(get_of(get(result, "pane"), "pane_id"));
    let tab = as_text(get_of(get(result, "pane"), "tab_id"));
    match (moved, tab) {
        (Some(m), Some(t)) => {
            let location = LivePaneLocation { pane_id: m, tab_id: t };
            panes.insert(pane.to_owned(), location.duplicate());
            assert(relocated(p0, panes@, pane@, location.pane_id@, location.tab_id@));
            Ok(location)
        },
        _ => Err(String::from_str("Herdr returned an invalid pane move result")),
    }
}

/// Focusing Hunkle's pane again after focusing the agent.
pub open spec fn focused_back<A: Fn(&String, &Json) -> Result<Json, String>>(
    api: A,
    host: Seq<char>,
    r: Result<(), Seq<char>>,
) -> bool {
    exists|reply: Result<Json, String>| #[trigger]
        asked_focus(api, host, reply) && r == focus_outcome(reply, host, "restore focus in Hunkle"@)
}

/// The agent's pane is focused, so that it redraws in its new place, and
/// then Hunkle's pane again.
pub open spec fn refreshed<A: Fn(&String, &Json) -> Result<Json, String>>(
    api: A,
    agent: Seq<char>,
    host: Seq<char>,
    p: Locations,
    r: Result<(), Seq<char>>,
) -> bool {
    if !p.dom().contains(agent) {
        r == Err::<(), Seq<char>>(unavailable_message(agent))
    } else {
        exists|reply: Result<Json, String>| #[trigger]
            asked_focus(api, p[agent].pane_id@, reply) && match focus_outcome(
                reply,
                p[agent].pane_id@,
                "refresh the displayed agent"@,
            ) {
                Err(e) => r == Err::<(), Seq<char>>(e),
                Ok(_) => focused_back(api, host, r),
            }
    }
}

/// Focuses the rebuilt agent, then Hunkle.
pub fn refresh_rebuilt_agent<A: Fn(&String, &Json) -> Result<Json, String>>(
    api: &A,
    agent_pane: &str,
    host_pane: &str,
    panes: &PaneLocations,
) -> (r: Result<(), String>)
    requires
        panes.wf(),
        forall|m: &String, p: &Json| #[trigger] api.requires((m, p)),
    ensures
        refreshed(*api, agent_pane@, host_pane@, panes@, outcome(r)),
{
    let live = match panes.get(agent_pane) {
        Some(location) => location.pane_id.clone(),
        None => {
            return Err(unavailable(agent_pane));
        },
    };
    match focus_pane(api, live.as_str(), "refresh the displayed agent") {
        Err(e) => Err(e),
        Ok(()) => focus_pane(api, host_pane, "restore focus in Hunkle"),
    }
}

/// How many nodes a tree has.
pub open spec fn node_count(t: LiveLayoutNode) -> nat
    decreases t,
{
    match t {
        LiveLayoutNode::Pane(_) => 1,
        LiveLayoutNode::Split { first, second, .. } => 1 + node_count(*first) + node_count(*second),
    }
}

pub open spec fn no_anchor_message(tab: Seq<char>) -> Seq<char> {
    "No saved layout pane is available in tab "@ + tab
}

/// Rebuilding the tree `tree` in tab `tab`, where one pane of each split is
/// already: the other side's first pane is moved in beside it, in the
/// split's direction and ratio (and swapped into place when it belongs
/// first); then both sides are rebuilt.
pub open spec fn rebuilt<R: Fn(&Vec<String>) -> Result<Json, String>, T: Fn(u32) -> String>(
    runner: R,
    ratio_text: T,
    tree: LiveLayoutNode,
    tab: Seq<char>,
    p0: Locations,
    p1: Locations,
    r: Result<(), Seq<char>>,
) -> bool
    decreases 4 * node_count(tree),
{
    match tree {
        LiveLayoutNode::Pane(_) => r == Ok::<(), Seq<char>>(()) && p1 == p0,
        LiveLayoutNode::Split { direction, ratio_bits, first, second } => split_rebuilt(
            runner,
            ratio_text,
            direction,
            ratio_bits,
            *first,
            *second,
            tab,
            p0,
            p1,
            r,
        ),
    }
}

pub open spec fn split_rebuilt<R: Fn(&Vec<String>) -> Result<Json, String>, T: Fn(u32) -> String>(
    runner: R,
    ratio_text: T,
    direction: LayoutDirection,
    bits: u32,
    first: LiveLayoutNode,
    second: LiveLayoutNode,
    tab: Seq<char>,
    p0: Locations,
    p1: Locations,
    r: Result<(), Seq<char>>,
) -> bool
    decreases 4 * (node_count(first) + node_count(second)) + 3,
{
    match (crate::layout::spec_pane_in_tab(first, tab, p0), crate::layout::spec_pane_in_tab(second, tab, p0)) {
        (None, None) => r == Err::<(), Seq<char>>(no_anchor_message(tab)) && p1 == p0,
        (Some(_), Some(_)) => children_rebuilt(runner, ratio_text, first, second, tab, p0, p1, r),
        (Some(target), None) => second_moved_in(runner, ratio_text, direction, bits, first, second, tab, target, p0, p1, r),
        (None, Some(target)) => first_moved_in(runner, ratio_text, direction, bits, first, second, tab, target, p0, p1, r),
    }
}

/// The second side's first pane is moved in beside `target`.
pub open spec fn second_moved_in<R: Fn(&Vec<String>) -> Result<Json, String>, T: Fn(u32) -> String>(
    runner: R,
    ratio_text: T,
    direction: LayoutDirection,
    bits: u32,
    first: LiveLayoutNode,
    second: LiveLayoutNode,
    tab: Seq<char>,
    target: Seq<char>,
    p0: Locations,
    p1: Locations,
    r: Result<(), Seq<char>>,
) -> bool
    decreases 4 * (node_count(first) + node_count(second)) + 2,
{
    exists|pm: Locations, rm: Result<Seq<char>, Seq<char>>| #[trigger]
        move_outcome(runner, ratio_text, p0, second.panes()[0], tab, target, direction, bits, pm, rm) && match rm {
            Err(e) => r == Err::<(), Seq<char>>(e) && p1 == pm,
            Ok(_) => children_rebuilt(runner, ratio_text, first, second, tab, pm, p1, r),
        }
}

/// The first side's first pane is moved in beside `target`, then swapped
/// with it so that it comes first.
pub open spec fn first_moved_in<R: Fn(&Vec<String>) -> Result<Json, String>, T: Fn(u32) -> String>(
    runner: R,
    ratio_text: T,
    direction: LayoutDirection,
    bits: u32,
    first: LiveLayoutNode,
    second: LiveLayoutNode,
    tab: Seq<char>,
    target: Seq<char>,
    p0: Locations,
    p1: Locations,
    r: Result<(), Seq<char>>,
) -> bool
    decreases 4 * (node_count(first) + node_count(second)) + 2,
{
    exists|pm: Locations, rm: Result<Seq<char>, Seq<char>>| #[trigger]
        move_outcome(runner, ratio_text, p0, first.panes()[0], tab, target, direction, bits, pm, rm) && match rm {
            Err(e) => r == Err::<(), Seq<char>>(e) && p1 == pm,
            Ok(_) => swapped_in(runner, ratio_text, first, second, tab, target, pm, p1, r),
        }
}

pub open spec fn swapped_in<R: Fn(&Vec<String>) -> Result<Json, String>, T: Fn(u32) -> String>(
    runner: R,
    ratio_text: T,
    first: LiveLayoutNode,
    second: LiveLayoutNode,
    tab: Seq<char>,
    target: Seq<char>,
    p0: Locations,
    p1: Locations,
    r: Result<(), Seq<char>>,
) -> bool
    decreases 4 * (node_count(first) + node_count(second)) + 1,
{
    exists|rs: Result<(), Seq<char>>| #[trigger]
        swap_outcome(runner, p0, target, first.panes()[0], rs) && match rs {
            Err(e) => r == Err::<(), Seq<char>>(e) && p1 == p0,
            Ok(_) => children_rebuilt(runner, ratio_text, first, second, tab, p0, p1, r),
        }
}

/// Names an intermediate state of a chain of steps, so that a proof can
/// point at it.
pub open spec fn reached<A, B>(a: A, b: B) -> bool {
    true
}

/// Both sides are rebuilt, the first before the second.
pub open spec fn children_rebuilt<R: Fn(&Vec<String>) -> Result<Json, String>, T: Fn(u32) -> String>(
    runner: R,
    ratio_text: T,
    first: LiveLayoutNode,
    second: LiveLayoutNode,
    tab: Seq<char>,
    p0: Locations,
    p1: Locations,
    r: Result<(), Seq<char>>,
) -> bool
    decreases 4 * (node_count(first) + node_count(second)),
{
    exists|pm: Locations, r1: Result<(), Seq<char>>| #[trigger]
        reached(pm, r1) && rebuilt(runner, ratio_text, first, tab, p0, pm, r1) && match r1 {
            Err(e) => r == Err::<(), Seq<char>>(e) && p1 == pm,
            Ok(_) => rebuilt(runner, ratio_text, second, tab, pm, p1, r),
        }
}

/// Rebuilds a saved tree in a tab from its panes, wherever they are now.
pub fn rebuild_layout<R: Fn(&Vec<String>) -> Result<Json, String>, T: Fn(u32) -> String>(
    runner: &R,
    ratio_text: &T,
    tree: &LiveLayoutNode,
    tab_id: &str,
    panes: &mut PaneLocations,
) -> (r: Result<(), String>)
    requires
        old(panes).wf(),
        forall|a: &Vec<String>| #[trigger] runner.requires((a,)),
        forall|b: u32| #[trigger] ratio_text.requires((b,)),
    ensures
        final(panes).wf(),
        rebuilt(*runner, *ratio_text, *tree, tab_id@, old(panes)@, final(panes)@, outcome(r)),
    decreases tree,
{
    match tree {
        LiveLayoutNode::Pane(_) => Ok(()),
        LiveLayoutNode::Split { direction, ratio_bits, first, second } => {
            let ghost p0 = panes@;
            let first_anchor = match crate::layout::pane_in_tab(first, tab_id, panes) {
                Some(a) => Some(a.to_owned()),
                None => None,
            };
            let second_anchor = match crate::layout::pane_in_tab(second, tab_id, panes) {
                Some(a) => Some(a.to_owned()),
                None => None,
            };
            let ghost f = **first;
            let ghost s = **second;
            match (first_anchor, second_anchor) {
                (None, None) => {
                    let mut message = String::from_str("No saved layout pane is available in tab ");
                    append_str(&mut message, tab_id);
                    return Err(message);
                },
                (Some(_), Some(_)) => {
                    let ghost pm = panes@;
                    let r1 = rebuild_layout(runner, ratio_text, first, tab_id, panes);
                    let ghost pa = panes@;
                    let ghost o1 = outcome(r1);
                    assert(rebuilt(*runner, *ratio_text, f, tab_id@, pm, pa, o1));
                    match r1 {
                        Err(e) => {
                            assert(o1 == Err::<(), Seq<char>>(e@));
                            assert(reached(pa, o1));
                            assert(children_rebuilt(*runner, *ratio_text, f, s, tab_id@, pm, pa, Err(e@)));
                            return Err(e);
                        },
                        Ok(()) => {},
                    }
                    let r2 = rebuild_layout(runner, ratio_text, second, tab_id, panes);
                    assert(rebuilt(*runner, *ratio_text, f, tab_id@, pm, pa, o1));
                    assert(reached(pa, o1));
                    assert(children_rebuilt(*runner, *ratio_text, f, s, tab_id@, pm, panes@, outcome(r2)));
                    r2
                },
                (Some(target), None) => {
                    let moved = second.first_pane();
                    let ghost pm0 = panes@;
                    let rm = move_layout_pane(runner, ratio_text, panes, moved, tab_id, target.as_str(), *direction, *ratio_bits);
                    let ghost pm = panes@;
                    let ghost om = text_outcome(rm);
                    assert(move_outcome(*runner, *ratio_text, pm0, s.panes()[0], tab_id@, target@, *direction, *ratio_bits, pm, om));
                    match rm {
                        Err(e) => {
                            return Err(e);
                        },
                        Ok(_) => {},
                    }
                    let r1 = rebuild_layout(runner, ratio_text, first, tab_id, panes);
                    let ghost pa = panes@;
                    let ghost o1 = outcome(r1);
                    match r1 {
                        Err(e) => {
                            assert(reached(pa, o1));
                            assert(children_rebuilt(*runner, *ratio_text, f, s, tab_id@, pm, pa, Err(e@)));
                            return Err(e);
                        },
                        Ok(()) => {},
                    }
                    let r2 = rebuild_layout(runner, ratio_text, second, tab_id, panes);
                    assert(rebuilt(*runner, *ratio_text, f, tab_id@, pm, pa, o1));
                    assert(reached(pa, o1));
                    assert(children_rebuilt(*runner, *ratio_text, f, s, tab_id@, pm, panes@, outcome(r2)));
                    r2
                },
                (None, Some(target)) => {
                    let moved = first.first_pane();
                    let ghost pm0 = panes@;
                    let rm = move_layout_pane(runner, ratio_text, panes, moved, tab_id, target.as_str(), *direction, *ratio_bits);
                    let ghost pm = panes@;
                    let ghost om = text_outcome(rm);
                    assert(move_outcome(*runner, *ratio_text, pm0, f.panes()[0], tab_id@, target@, *direction, *ratio_bits, pm, om));
                    match rm {
                        Err(e) => {
                            return Err(e);
                        },
                        Ok(_) => {},
                    }
                    let rs = swap_layout_panes(runner, panes, target.as_str(), moved);
                    let ghost os = outcome(rs);
                    assert(swap_outcome(*runner, pm, target@, f.panes()[0], os));
                    match rs {
                        Err(e) => {
                            assert(swapped_in(*runner, *ratio_text, f, s, tab_id@, target@, pm, pm, Err(e@)));
                            return Err(e);
                        },
                        Ok(()) => {},
                    }
                    let r1 = rebuild_layout(runner, ratio_text, first, tab_id, panes);
                    let ghost pa = panes@;
                    let ghost o1 = outcome(r1);
                    match r1 {
                        Err(e) => {
                            assert(reached(pa, o1));
                            assert(children_rebuilt(*runner, *ratio_text, f, s, tab_id@, pm, pa, Err(e@)));
                            assert(swapped_in(*runner, *ratio_text, f, s, tab_id@, target@, pm, pa, Err(e@)));
                            return Err(e);
                        },
                        Ok(()) => {},
                    }
                    let r2 = rebuild_layout(runner, ratio_text, second, tab_id, panes);
                    assert(rebuilt(*runner, *ratio_text, f, tab_id@, pm, pa, o1));
                    assert(reached(pa, o1));
                    assert(children_rebuilt(*runner, *ratio_text, f, s, tab_id@, pm, panes@, outcome(r2)));
                    assert(swapped_in(*runner, *ratio_text, f, s, tab_id@, target@, pm, panes@, outcome(r2)));
                    r2
                },
            }
        },
    }
}

/// Whether the exported tree `actual` is the saved tree `expected` with each
/// saved pane at its live id: the same splits, in the same directions, with
/// ratios that `close` finds close (`b`).
pub open spec fn tree_matched<C: Fn(u32, u32) -> bool>(
    close: C,
    actual: LiveLayoutNode,
    expected: LiveLayoutNode,
    p: Locations,
    b: bool,
) -> bool
    decreases 4 * node_count(actual) + 3,
{
    match actual {
        LiveLayoutNode::Pane(a) => match expected {
            LiveLayoutNode::Pane(e) => b == (p.dom().contains(e@) && p[e@].pane_id@ == a@),
            _ => !b,
        },
        LiveLayoutNode::Split { direction: ad, ratio_bits: ar, first: af, second: as_ } => match expected {
            LiveLayoutNode::Split { direction: ed, ratio_bits: er, first: ef, second: es } => if ad != ed {
                !b
            } else {
                split_matched(close, ar, er, *af, *ef, *as_, *es, p, b)
            },
            _ => !b,
        },
    }
}

pub open spec fn split_matched<C: Fn(u32, u32) -> bool>(
    close: C,
    ar: u32,
    er: u32,
    af: LiveLayoutNode,
    ef: LiveLayoutNode,
    as_: LiveLayoutNode,
    es: LiveLayoutNode,
    p: Locations,
    b: bool,
) -> bool
    decreases 4 * (node_count(af) + node_count(as_)) + 2,
{
    exists|k: bool| #[trigger]
        close.ensures((ar, er), k) && if !k {
            !b
        } else {
            children_matched(close, af, ef, as_, es, p, b)
        }
}

pub open spec fn children_matched<C: Fn(u32, u32) -> bool>(
    close: C,
    af: LiveLayoutNode,
    ef: LiveLayoutNode,
    as_: LiveLayoutNode,
    es: LiveLayoutNode,
    p: Locations,
    b: bool,
) -> bool
    decreases 4 * (node_count(af) + node_count(as_)) + 1,
{
    ||| tree_matched(close, af, ef, p, false) && !b
    ||| tree_matched(close, af, ef, p, true) && tree_matched(close, as_, es, p, b)
}

fn matches_tree<C: Fn(u32, u32) -> bool>(
    close: &C,
    actual: &LiveLayoutNode,
    expected: &LiveLayoutNode,
    panes: &PaneLocations,
) -> (r: bool)
    requires
        panes.wf(),
        forall|a: u32, b: u32| #[trigger] close.requires((a, b)),
    ensures
        tree_matched(*close, *actual, *expected, panes@, r),
    decreases actual,
{
    match actual {
        LiveLayoutNode::Pane(a) => match expected {
            LiveLayoutNode::Pane(e) => match panes.get(e.as_str()) {
                Some(location) => str_eq(location.pane_id.as_str(), a.as_str()),
                None => false,
            },
            _ => false,
        },
        LiveLayoutNode::Split { direction: ad, ratio_bits: ar, first: af, second: as_ } => match expected {
            LiveLayoutNode::Split { direction: ed, ratio_bits: er, first: ef, second: es } => {
                if *ad != *ed {
                    return false;
                }
                let k = close(*ar, *er);
                proof {
                    assert(close.ensures((*ar, *er), k));
                }
                if !k {
                    assert(split_matched(*close, *ar, *er, **af, **ef, **as_, **es, panes@, false));
                    return false;
                }
                let b1 = matches_tree(close, af, ef, panes);
                if !b1 {
                    assert(children_matched(*close, **af, **ef, **as_, **es, panes@, false));
                    assert(split_matched(*close, *ar, *er, **af, **ef, **as_, **es, panes@, false));
                    return false;
                }
                let b2 = matches_tree(close, as_, es, panes);
                assert(children_matched(*close, **af, **ef, **as_, **es, panes@, b2));
                assert(split_matched(*close, *ar, *er, **af, **ef, **as_, **es, panes@, b2));
                b2
            },
            _ => false,
        },
    }
}

pub open spec fn unrestored_message(name: Seq<char>) -> Seq<char> {
    "Herdr did not restore the "@ + name + " agent layout"@
}

/// The exported tree `actual` is checked against the saved tree `expected`.
pub open spec fn verified<C: Fn(u32, u32) -> bool>(
    close: C,
    actual: LiveLayoutNode,
    expected: LiveLayoutNode,
    p: Locations,
    name: Seq<char>,
    r: Result<(), Seq<char>>,
) -> bool {
    ||| tree_matched(close, actual, expected, p, true) && r == Ok::<(), Seq<char>>(())
    ||| tree_matched(close, actual, expected, p, false) && r == Err::<(), Seq<char>>(unrestored_message(name))
}

/// Checks that Herdr rebuilt a saved layout as it was.
pub fn verify_layout<C: Fn(u32, u32) -> bool>(
    close: &C,
    actual: &LiveLayout,
    expected: &LiveLayoutNode,
    panes: &PaneLocations,
    name: &str,
) -> (r: Result<(), String>)
    requires
        panes.wf(),
        forall|a: u32, b: u32| #[trigger] close.requires((a, b)),
    ensures
        verified(*close, actual.root, *expected, panes@, name@, outcome(r)),
{
    let b = matches_tree(close, &actual.root, expected, panes);
    if b {
        Ok(())
    } else {
        let mut message = String::from_str("Herdr did not restore the ");
        append_str(&mut message, name);
        append_str(&mut message, " agent layout");
        Err(message)
    }
}

/// Each saved pane of `ids`, in order, is moved to a new tab of its own.
pub open spec fn scattered<R: Fn(&Vec<String>) -> Result<Json, String>>(
    runner: R,
    ids: Seq<Seq<char>>,
    workspace: Seq<char>,
    label: Seq<char>,
    p0: Locations,
    p1: Locations,
    r: Result<(), Seq<char>>,
) -> bool
    decreases ids.len(), 1nat,
{
    if ids.len() == 0 {
        r == Ok::<(), Seq<char>>(()) && p1 == p0
    } else {
        scatter_step(runner, ids, workspace, label, p0, p1, r)
    }
}

pub open spec fn scatter_step<R: Fn(&Vec<String>) -> Result<Json, String>>(
    runner: R,
    ids: Seq<Seq<char>>,
    workspace: Seq<char>,
    label: Seq<char>,
    p0: Locations,
    p1: Locations,
    r: Result<(), Seq<char>>,
) -> bool
    decreases ids.len(), 0nat,
{
    exists|pm: Locations, rm: Result<(Seq<char>, Seq<char>), Seq<char>>| #[trigger]
        parked_outcome(runner, p0, ids[0], workspace, label, pm, rm) && match rm {
            Err(e) => r == Err::<(), Seq<char>>(e) && p1 == pm,
            Ok(_) => ids.len() > 0 && scattered(runner, ids.drop_first(), workspace, label, pm, p1, r),
        }
}

fn scatter_from<R: Fn(&Vec<String>) -> Result<Json, String>>(
    runner: &R,
    ids: &Vec<String>,
    i: usize,
    workspace_id: &str,
    label: &str,
    panes: &mut PaneLocations,
) -> (r: Result<(), String>)
    requires
        i <= ids.len(),
        old(panes).wf(),
        forall|a: &Vec<String>| #[trigger] runner.requires((a,)),
    ensures
        final(panes).wf(),
        scattered(*runner, crate::layout::views(ids@).skip(i as int), workspace_id@, label@, old(panes)@, final(panes)@, outcome(r)),
    decreases ids.len() - i,
{
    let ghost rest = crate::layout::views(ids@).skip(i as int);
    if i == ids.len() {
        assert(rest.len() == 0);
        return Ok(());
    }
    let ghost p0 = panes@;
    assert(rest[0] == ids@[i as int]@);
    let rm = move_pane_to_new_tab(runner, panes, ids[i].as_str(), workspace_id, label);
    let ghost pm = panes@;
    let ghost om = location_outcome(rm);
    match rm {
        Err(e) => {
            assert(scatter_step(*runner, rest, workspace_id@, label@, p0, pm, Err(e@)));
            return Err(e);
        },
        Ok(_) => {},
    }
    let r = scatter_from(runner, ids, i + 1, workspace_id, label, panes);
    assert(rest.drop_first() =~= crate::layout::views(ids@).skip(i + 1));
    assert(scatter_step(*runner, rest, workspace_id@, label@, p0, panes@, outcome(r)));
    r
}

/// The panes of `tree` are scattered into new tabs; the result is the tab
/// that its first pane went to.
pub open spec fn scatter_outcome<R: Fn(&Vec<String>) -> Result<Json, String>>(
    runner: R,
    tree: LiveLayoutNode,
    workspace: Seq<char>,
    label: Seq<char>,
    p0: Locations,
    p1: Locations,
    r: Result<Seq<char>, Seq<char>>,
) -> bool {
    exists|pm: Locations, rs: Result<(), Seq<char>>| #[trigger]
        reached(pm, rs) && scattered(runner, tree.panes(), workspace, label, p0, pm, rs) && p1 == pm && match rs {
            Err(e) => r == Err::<Seq<char>, Seq<char>>(e),
            Ok(_) => if pm.dom().contains(tree.panes()[0]) {
                r == Ok::<Seq<char>, Seq<char>>(pm[tree.panes()[0]].tab_id@)
            } else {
                r == Err::<Seq<char>, Seq<char>>(unavailable_message(tree.panes()[0]))
            },
        }
}

/// Moves each pane of a saved tree to a new tab of its own, and tells the
/// tab of its first pane.
pub fn scatter_layout<R: Fn(&Vec<String>) -> Result<Json, String>>(
    runner: &R,
    tree: &LiveLayoutNode,
    workspace_id: &str,
    label: &str,
    panes: &mut PaneLocations,
) -> (r: Result<String, String>)
    requires
        old(panes).wf(),
        forall|a: &Vec<String>| #[trigger] runner.requires((a,)),
    ensures
        final(panes).wf(),
        scatter_outcome(*runner, *tree, workspace_id@, label@, old(panes)@, final(panes)@, text_outcome(r)),
{
    let root = tree.first_pane();
    let mut ids: Vec<String> = Vec::new();
    tree.collect_panes(&mut ids);
    assert(crate::layout::views(ids@) =~= tree.panes());
    assert(crate::layout::views(ids@).skip(0) =~= tree.panes());
    let scattered_result = scatter_from(runner, &ids, 0, workspace_id, label, panes);
    let ghost pm = panes@;
    let ghost rs = outcome(scattered_result);
    assert(reached(pm, rs));
    match scattered_result {
        Err(e) => Err(e),
        Ok(()) => match panes.get(root) {
            Some(location) => Ok(location.tab_id.clone()),
            None => Err(unavailable(root)),
        },
    }
}

/// Each saved pane of `ids` that is not in tab `tab` is moved there, beside
/// the saved pane `target`, in halves.
pub open spec fn normalized<R: Fn(&Vec<String>) -> Result<Json, String>, T: Fn(u32) -> String>(
    runner: R,
    ratio_text: T,
    ids: Seq<Seq<char>>,
    tab: Seq<char>,
    target: Seq<char>,
    p0: Locations,
    p1: Locations,
    r: Result<(), Seq<char>>,
) -> bool
    decreases ids.len(), 1nat,
{
    if ids.len() == 0 {
        r == Ok::<(), Seq<char>>(()) && p1 == p0
    } else if p0.dom().contains(ids[0]) && p0[ids[0]].tab_id@ == tab {
        normalized(runner, ratio_text, ids.drop_first(), tab, target, p0, p1, r)
    } else {
        normalize_step(runner, ratio_text, ids, tab, target, p0, p1, r)
    }
}

pub open spec fn normalize_step<R: Fn(&Vec<String>) -> Result<Json, String>, T: Fn(u32) -> String>(
    runner: R,
    ratio_text: T,
    ids: Seq<Seq<char>>,
    tab: Seq<char>,
    target: Seq<char>,
    p0: Locations,
    p1: Locations,
    r: Result<(), Seq<char>>,
) -> bool
    decreases ids.len(), 0nat,
{
    exists|pm: Locations, rm: Result<Seq<char>, Seq<char>>| #[trigger]
        move_outcome(runner, ratio_text, p0, ids[0], tab, target, LayoutDirection::Right, HALF_RATIO_BITS, pm, rm)
            && match rm {
            Err(e) => r == Err::<(), Seq<char>>(e) && p1 == pm,
            Ok(_) => ids.len() > 0 && normalized(runner, ratio_text, ids.drop_first(), tab, target, pm, p1, r),
        }
}

fn normalize_from<R: Fn(&Vec<String>) -> Result<Json, String>, T: Fn(u32) -> String>(
    runner: &R,
    ratio_text: &T,
    ids: &Vec<String>,
    i: usize,
    tab_id: &str,
    target: &str,
    panes: &mut PaneLocations,
) -> (r: Result<(), String>)
    requires
        i <= ids.len(),
        old(panes).wf(),
        forall|a: &Vec<String>| #[trigger] runner.requires((a,)),
        forall|b: u32| #[trigger] ratio_text.requires((b,)),
    ensures
        final(panes).wf(),
        normalized(
            *runner,
            *ratio_text,
            crate::layout::views(ids@).skip(i as int),
            tab_id@,
            target@,
            old(panes)@,
            final(panes)@,
            outcome(r),
        ),
    decreases ids.len() - i,
{
    let ghost rest = crate::layout::views(ids@).skip(i as int);
    if i == ids.len() {
        assert(rest.len() == 0);
        return Ok(());
    }
    let ghost p0 = panes@;
    assert(rest[0] == ids@[i as int]@);
    assert(rest.drop_first() =~= crate::layout::views(ids@).skip(i + 1));
    let here = match panes.get(ids[i].as_str()) {
        Some(location) => str_eq(location.tab_id.as_str(), tab_id),
        None => false,
    };
    if here {
        return normalize_from(runner, ratio_text, ids, i + 1, tab_id, target, panes);
    }
    let rm = move_layout_pane(
        runner,
        ratio_text,
        panes,
        ids[i].as_str(),
        tab_id,
        target,
        LayoutDirection::Right,
        HALF_RATIO_BITS,
    );
    let ghost pm = panes@;
    match rm {
        Err(e) => {
            assert(normalize_step(*runner, *ratio_text, rest, tab_id@, target@, p0, pm, Err(e@)));
            return Err(e);
        },
        Ok(_) => {},
    }
    let r = normalize_from(runner, ratio_text, ids, i + 1, tab_id, target, panes);
    assert(normalize_step(*runner, *ratio_text, rest, tab_id@, target@, p0, panes@, outcome(r)));
    r
}

/// Brings every pane of a saved tree into a tab, beside `target`.
pub fn normalize_layout<R: Fn(&Vec<String>) -> Result<Json, String>, T: Fn(u32) -> String>(
    runner: &R,
    ratio_text: &T,
    tree: &LiveLayoutNode,
    tab_id: &str,
    target: &str,
    panes: &mut PaneLocations,
) -> (r: Result<(), String>)
    requires
        old(panes).wf(),
        forall|a: &Vec<String>| #[trigger] runner.requires((a,)),
        forall|b: u32| #[trigger] ratio_text.requires((b,)),
    ensures
        final(panes).wf(),
        normalized(*runner, *ratio_text, tree.panes(), tab_id@, target@, old(panes)@, final(panes)@, outcome(r)),
{
    let mut ids: Vec<String> = Vec::new();
    tree.collect_panes(&mut ids);
    assert(crate::layout::views(ids@).skip(0) =~= tree.panes());
    normalize_from(runner, ratio_text, &ids, 0, tab_id, target, panes)
}

/// Undoing a failed exchange: the parked panes go back to the agent's tab
/// and Hunkle's previous agent panes to Hunkle's tab, both trees are
/// rebuilt, and the exported layouts are checked.
pub open spec fn restored<R: Fn(&Vec<String>) -> Result<Json, String>, A: Fn(&String, &Json) -> Result<Json, String>, T: Fn(u32) -> String, C: Fn(u32, u32) -> bool>(
    runner: R,
    api: A,
    ratio_text: T,
    close: C,
    host_pane: Seq<char>,
    host: LiveLayout,
    selected: LiveLayout,
    outgoing: LiveLayoutNode,
    p0: Locations,
    p1: Locations,
    r: Result<(), Seq<char>>,
) -> bool {
    exists|pm: Locations, rn: Result<(), Seq<char>>| #[trigger]
        reached(pm, rn) && normalized(runner, ratio_text, outgoing.panes(), selected.tab_id@, outgoing.panes()[0], p0, pm, rn)
            && match rn {
            Err(e) => r == Err::<(), Seq<char>>(e) && p1 == pm,
            Ok(_) => restored_host_panes(runner, api, ratio_text, close, host_pane, host, selected, outgoing, pm, p1, r),
        }
}


pub open spec fn restored_host_panes<R: Fn(&Vec<String>) -> Result<Json, String>, A: Fn(&String, &Json) -> Result<Json, String>, T: Fn(u32) -> String, C: Fn(u32, u32) -> bool>(
    runner: R,
    api: A,
    ratio_text: T,
    close: C,
    host_pane: Seq<char>,
    host: LiveLayout,
    selected: LiveLayout,
    outgoing: LiveLayoutNode,
    p0: Locations,
    p1: Locations,
    r: Result<(), Seq<char>>,
) -> bool {
    exists|pm: Locations, rn: Result<(), Seq<char>>| #[trigger]
        reached(pm, rn) && normalized(runner, ratio_text, selected.root.panes(), host.tab_id@, host_pane, p0, pm, rn)
            && match rn {
            Err(e) => r == Err::<(), Seq<char>>(e) && p1 == pm,
            Ok(_) => restored_joined(runner, api, ratio_text, close, host_pane, host, selected, outgoing, pm, p1, r),
        }
}


pub open spec fn restored_joined<R: Fn(&Vec<String>) -> Result<Json, String>, A: Fn(&String, &Json) -> Result<Json, String>, T: Fn(u32) -> String, C: Fn(u32, u32) -> bool>(
    runner: R,
    api: A,
    ratio_text: T,
    close: C,
    host_pane: Seq<char>,
    host: LiveLayout,
    selected: LiveLayout,
    outgoing: LiveLayoutNode,
    p0: Locations,
    p1: Locations,
    r: Result<(), Seq<char>>,
) -> bool {
    exists|pm: Locations, rm: Result<Seq<char>, Seq<char>>| #[trigger]
        move_outcome(
            runner,
            ratio_text,
            p0,
            selected.root.panes()[0],
            selected.tab_id@,
            outgoing.panes()[0],
            LayoutDirection::Right,
            HALF_RATIO_BITS,
            pm,
            rm,
        ) && match rm {
            Err(e) => r == Err::<(), Seq<char>>(e) && p1 == pm,
            Ok(_) => restored_parked_tree(runner, api, ratio_text, close, host_pane, host, selected, outgoing, pm, p1, r),
        }
}


pub open spec fn restored_parked_tree<R: Fn(&Vec<String>) -> Result<Json, String>, A: Fn(&String, &Json) -> Result<Json, String>, T: Fn(u32) -> String, C: Fn(u32, u32) -> bool>(
    runner: R,
    api: A,
    ratio_text: T,
    close: C,
    host_pane: Seq<char>,
    host: LiveLayout,
    selected: LiveLayout,
    outgoing: LiveLayoutNode,
    p0: Locations,
    p1: Locations,
    r: Result<(), Seq<char>>,
) -> bool {
    exists|pm: Locations, rb: Result<(), Seq<char>>| #[trigger]
        reached(pm, rb) && rebuilt(runner, ratio_text, selected.root, selected.tab_id@, p0, pm, rb) && match rb {
            Err(e) => r == Err::<(), Seq<char>>(e) && p1 == pm,
            Ok(_) => restored_host_tree(runner, api, ratio_text, close, host_pane, host, selected, outgoing, pm, p1, r),
        }
}


pub open spec fn restored_host_tree<R: Fn(&Vec<String>) -> Result<Json, String>, A: Fn(&String, &Json) -> Result<Json, String>, T: Fn(u32) -> String, C: Fn(u32, u32) -> bool>(
    runner: R,
    api: A,
    ratio_text: T,
    close: C,
    host_pane: Seq<char>,
    host: LiveLayout,
    selected: LiveLayout,
    outgoing: LiveLayoutNode,
    p0: Locations,
    p1: Locations,
    r: Result<(), Seq<char>>,
) -> bool {
    exists|pm: Locations, rb: Result<(), Seq<char>>| #[trigger]
        reached(pm, rb) && rebuilt(runner, ratio_text, host.root, host.tab_id@, p0, pm, rb) && p1 == pm && match rb {
            Err(e) => r == Err::<(), Seq<char>>(e),
            Ok(_) => host_restored(api, close, host_pane, host, selected, pm, r),
        }
}

/// Hunkle's tab is exported again and must show its previous tree, with
/// Hunkle focused; then the agent's tab.
pub open spec fn host_restored<A: Fn(&String, &Json) -> Result<Json, String>, C: Fn(u32, u32) -> bool>(
    api: A,
    close: C,
    host_pane: Seq<char>,
    host: LiveLayout,
    selected: LiveLayout,
    p: Locations,
    r: Result<(), Seq<char>>,
) -> bool {
    exists|e: Result<LiveLayout, String>| #[trigger]
        exported(api, host.tab_id@, layout_outcome(e)) && match e {
            Err(m) => r == Err::<(), Seq<char>>(m@),
            Ok(l) => host_restored_checked(api, close, host_pane, l, host, selected, p, r),
        }
}

pub open spec fn host_restored_checked<A: Fn(&String, &Json) -> Result<Json, String>, C: Fn(u32, u32) -> bool>(
    api: A,
    close: C,
    host_pane: Seq<char>,
    exported_host: LiveLayout,
    host: LiveLayout,
    selected: LiveLayout,
    p: Locations,
    r: Result<(), Seq<char>>,
) -> bool {
    exists|v: Result<(), Seq<char>>| #[trigger]
        verified(close, exported_host.root, host.root, p, "previous displayed"@, v) && match v {
            Err(m) => r == Err::<(), Seq<char>>(m),
            Ok(_) => if exported_host.focused_pane_id@ != host_pane {
                r == Err::<(), Seq<char>>("Herdr did not restore focus in Hunkle"@)
            } else {
                parked_restored(api, close, selected, p, r)
            },
        }
}

/// The agent's tab is exported again and must show its previous tree.
pub open spec fn parked_restored<A: Fn(&String, &Json) -> Result<Json, String>, C: Fn(u32, u32) -> bool>(
    api: A,
    close: C,
    selected: LiveLayout,
    p: Locations,
    r: Result<(), Seq<char>>,
) -> bool {
    exists|e: Result<LiveLayout, String>| #[trigger]
        exported(api, selected.tab_id@, layout_outcome(e)) && match e {
            Err(m) => r == Err::<(), Seq<char>>(m@),
            Ok(l) => verified(close, l.root, selected.root, p, "previous parked"@, r),
        }
}

fn check_parked_restored<A: Fn(&String, &Json) -> Result<Json, String>, C: Fn(u32, u32) -> bool>(
    api: &A,
    close: &C,
    selected: &LiveLayout,
    panes: &PaneLocations,
) -> (r: Result<(), String>)
    requires
        panes.wf(),
        forall|m: &String, p: &Json| #[trigger] api.requires((m, p)),
        forall|a: u32, b: u32| #[trigger] close.requires((a, b)),
    ensures
        parked_restored(*api, *close, *selected, panes@, outcome(r)),
{
    let e = export_layout(api, selected.tab_id.as_str());
    let ghost g = e;
    match e {
        Err(m) => Err(m),
        Ok(l) => verify_layout(close, &l, &selected.root, panes, "previous parked"),
    }
}

fn check_host_restored<A: Fn(&String, &Json) -> Result<Json, String>, C: Fn(u32, u32) -> bool>(
    api: &A,
    close: &C,
    host_pane_id: &str,
    host: &LiveLayout,
    selected: &LiveLayout,
    panes: &PaneLocations,
) -> (r: Result<(), String>)
    requires
        panes.wf(),
        forall|m: &String, p: &Json| #[trigger] api.requires((m, p)),
        forall|a: u32, b: u32| #[trigger] close.requires((a, b)),
    ensures
        host_restored(*api, *close, host_pane_id@, *host, *selected, panes@, outcome(r)),
{
    let e = export_layout(api, host.tab_id.as_str());
    let ghost g = e;
    let l = match e {
        Err(m) => {
            return Err(m);
        },
        Ok(l) => l,
    };
    let v = verify_layout(close, &l, &host.root, panes, "previous displayed");
    let ghost gv = outcome(v);
    let r = match v {
        Err(m) => Err(m),
        Ok(()) => {
            if !str_eq(l.focused_pane_id.as_str(), host_pane_id) {
                Err(String::from_str("Herdr did not restore focus in Hunkle"))
            } else {
                check_parked_restored(api, close, selected, panes)
            }
        },
    };
    assert(host_restored_checked(*api, *close, host_pane_id@, l, *host, *selected, panes@, outcome(r)));
    r
}

fn restore_host_tree<R: Fn(&Vec<String>) -> Result<Json, String>, A: Fn(&String, &Json) -> Result<Json, String>, T: Fn(u32) -> String, C: Fn(u32, u32) -> bool>(
    runner: &R,
    api: &A,
    ratio_text: &T,
    close: &C,
    host_pane_id: &str,
    host: &LiveLayout,
    selected: &LiveLayout,
    outgoing: &LiveLayoutNode,
    panes: &mut PaneLocations,
) -> (r: Result<(), String>)
    requires
        old(panes).wf(),
        forall|a: &Vec<String>| #[trigger] runner.requires((a,)),
        forall|m: &String, p: &Json| #[trigger] api.requires((m, p)),
        forall|b: u32| #[trigger] ratio_text.requires((b,)),
        forall|a: u32, b: u32| #[trigger] close.requires((a, b)),
    ensures
        final(panes).wf(),
        restored_host_tree(*runner, *api, *ratio_text, *close, host_pane_id@, *host, *selected, *outgoing, old(panes)@, final(panes)@, outcome(r)),
{
    let ghost p0 = panes@;
    let rb = rebuild_layout(runner, ratio_text, &host.root, host.tab_id.as_str(), panes);
    let ghost pm = panes@;
    let ghost ob = outcome(rb);
    assert(reached(pm, ob));
    match rb {
        Err(e) => Err(e),
        Ok(()) => check_host_restored(api, close, host_pane_id, host, selected, panes),
    }
}

fn restore_parked_tree<R: Fn(&Vec<String>) -> Result<Json, String>, A: Fn(&String, &Json) -> Result<Json, String>, T: Fn(u32) -> String, C: Fn(u32, u32) -> bool>(
    runner: &R,
    api: &A,
    ratio_text: &T,
    close: &C,
    host_pane_id: &str,
    host: &LiveLayout,
    selected: &LiveLayout,
    outgoing: &LiveLayoutNode,
    panes: &mut PaneLocations,
) -> (r: Result<(), String>)
    requires
        old(panes).wf(),
        forall|a: &Vec<String>| #[trigger] runner.requires((a,)),
        forall|m: &String, p: &Json| #[trigger] api.requires((m, p)),
        forall|b: u32| #[trigger] ratio_text.requires((b,)),
        forall|a: u32, b: u32| #[trigger] close.requires((a, b)),
    ensures
        final(panes).wf(),
        restored_parked_tree(*runner, *api, *ratio_text, *close, host_pane_id@, *host, *selected, *outgoing, old(panes)@, final(panes)@, outcome(r)),
{
    let ghost p0 = panes@;
    let rb = rebuild_layout(runner, ratio_text, &selected.root, selected.tab_id.as_str(), panes);
    let ghost pm = panes@;
    let ghost ob = outcome(rb);
    assert(reached(pm, ob));
    match rb {
        Err(e) => Err(e),
        Ok(()) => restore_host_tree(runner, api, ratio_text, close, host_pane_id, host, selected, outgoing, panes),
    }
}

fn restore_joined<R: Fn(&Vec<String>) -> Result<Json, String>, A: Fn(&String, &Json) -> Result<Json, String>, T: Fn(u32) -> String, C: Fn(u32, u32) -> bool>(
    runner: &R,
    api: &A,
    ratio_text: &T,
    close: &C,
    host_pane_id: &str,
    host: &LiveLayout,
    selected: &LiveLayout,
    outgoing: &LiveLayoutNode,
    panes: &mut PaneLocations,
) -> (r: Result<(), String>)
    requires
        old(panes).wf(),
        forall|a: &Vec<String>| #[trigger] runner.requires((a,)),
        forall|m: &String, p: &Json| #[trigger] api.requires((m, p)),
        forall|b: u32| #[trigger] ratio_text.requires((b,)),
        forall|a: u32, b: u32| #[trigger] close.requires((a, b)),
    ensures
        final(panes).wf(),
        restored_joined(*runner, *api, *ratio_text, *close, host_pane_id@, *host, *selected, *outgoing, old(panes)@, final(panes)@, outcome(r)),
{
    let selected_root = selected.root.first_pane();
    let outgoing_root = outgoing.first_pane();
    let rm = move_layout_pane(
        runner,
        ratio_text,
        panes,
        selected_root,
        selected.tab_id.as_str(),
        outgoing_root,
        LayoutDirection::Right,
        HALF_RATIO_BITS,
    );
    match rm {
        Err(e) => Err(e),
        Ok(_) => restore_parked_tree(runner, api, ratio_text, close, host_pane_id, host, selected, outgoing, panes),
    }
}

fn restore_host_panes<R: Fn(&Vec<String>) -> Result<Json, String>, A: Fn(&String, &Json) -> Result<Json, String>, T: Fn(u32) -> String, C: Fn(u32, u32) -> bool>(
    runner: &R,
    api: &A,
    ratio_text: &T,
    close: &C,
    host_pane_id: &str,
    host: &LiveLayout,
    selected: &LiveLayout,
    outgoing: &LiveLayoutNode,
    panes: &mut PaneLocations,
) -> (r: Result<(), String>)
    requires
        old(panes).wf(),
        forall|a: &Vec<String>| #[trigger] runner.requires((a,)),
        forall|m: &String, p: &Json| #[trigger] api.requires((m, p)),
        forall|b: u32| #[trigger] ratio_text.requires((b,)),
        forall|a: u32, b: u32| #[trigger] close.requires((a, b)),
    ensures
        final(panes).wf(),
        restored_host_panes(*runner, *api, *ratio_text, *close, host_pane_id@, *host, *selected, *outgoing, old(panes)@, final(panes)@, outcome(r)),
{
    let ghost p0 = panes@;
    let rn = normalize_layout(runner, ratio_text, &selected.root, host.tab_id.as_str(), host_pane_id, panes);
    let ghost pm = panes@;
    let ghost on = outcome(rn);
    assert(reached(pm, on));
    match rn {
        Err(e) => Err(e),
        Ok(()) => restore_joined(runner, api, ratio_text, close, host_pane_id, host, selected, outgoing, panes),
    }
}

/// Puts both layouts back as they were before a failed exchange.
pub fn restore_layouts<R: Fn(&Vec<String>) -> Result<Json, String>, A: Fn(&String, &Json) -> Result<Json, String>, T: Fn(u32) -> String, C: Fn(u32, u32) -> bool>(
    runner: &R,
    api: &A,
    ratio_text: &T,
    close: &C,
    host_pane_id: &str,
    host: &LiveLayout,
    selected: &LiveLayout,
    outgoing: &LiveLayoutNode,
    panes: &mut PaneLocations,
) -> (r: Result<(), String>)
    requires
        old(panes).wf(),
        forall|a: &Vec<String>| #[trigger] runner.requires((a,)),
        forall|m: &String, p: &Json| #[trigger] api.requires((m, p)),
        forall|b: u32| #[trigger] ratio_text.requires((b,)),
        forall|a: u32, b: u32| #[trigger] close.requires((a, b)),
    ensures
        final(panes).wf(),
        restored(*runner, *api, *ratio_text, *close, host_pane_id@, *host, *selected, *outgoing, old(panes)@, final(panes)@, outcome(r)),
{
    let ghost p0 = panes@;
    let outgoing_root = outgoing.first_pane();
    let rn = normalize_layout(runner, ratio_text, outgoing, selected.tab_id.as_str(), outgoing_root, panes);
    let ghost pm = panes@;
    let ghost on = outcome(rn);
    assert(reached(pm, on));
    match rn {
        Err(e) => Err(e),
        Ok(()) => restore_host_panes(runner, api, ratio_text, close, host_pane_id, host, selected, outgoing, panes),
    }
}

/// A saved layout fits when it holds Hunkle's pane and, without it,
/// exactly the panes of the parked tree.
pub open spec fn saved_fits(root: LiveLayoutNode, parked: LiveLayoutNode, host_pane: Seq<char>) -> bool {
    root.panes().contains(host_pane) && match root.spec_without(host_pane) {
        Some(rest) => crate::layout::same_panes(rest.panes(), parked.panes()),
        None => false,
    }
}

/// `target` places `layout` beside Hunkle's pane as the current tree does.
pub open spec fn around_host(current: LiveLayoutNode, host_pane: Seq<char>, layout: LiveLayoutNode, target: LiveLayoutNode) -> bool {
    exists|h: String| h@ == host_pane && #[trigger] crate::layout::spec_layout_around_host(current, h, layout) == target
}

/// The layout Hunkle's tab gets: the agent's saved layout when it still
/// fits its panes, else the agent's tree beside Hunkle.
pub open spec fn is_display_target(
    saved: Option<crate::layout::AgentLayout>,
    parked: LiveLayoutNode,
    current: LiveLayoutNode,
    host_pane: Seq<char>,
    target: LiveLayoutNode,
) -> bool {
    match saved {
        Some(s) => if saved_fits(s.root, parked, host_pane) {
            target == s.root
        } else {
            around_host(current, host_pane, parked, target)
        },
        None => around_host(current, host_pane, parked, target),
    }
}

fn display_target(
    saved: &Option<crate::layout::AgentLayout>,
    parked: &LiveLayoutNode,
    current: &LiveLayoutNode,
    host_pane_id: &str,
) -> (r: LiveLayoutNode)
    ensures
        is_display_target(*saved, *parked, *current, host_pane_id@, r),
{
    match saved {
        Some(layout) => {
            if crate::layout::saved_layout_matches(layout, parked, host_pane_id) {
                return layout.root.duplicate();
            }
        },
        None => {},
    }
    crate::layout::layout_around_host(current, host_pane_id, parked.duplicate())
}

/// Each pane of a tree with the tab it is in.
pub open spec fn tree_located(t: LiveLayoutNode, tab: Seq<char>) -> Seq<(Seq<char>, Seq<char>)> {
    t.panes().map_values(|p: Seq<char>| (p, tab))
}

/// The locations of the panes of two trees, or `None` when a pane is in both.
pub open spec fn both_located(a: LiveLayoutNode, ta: Seq<char>, b: LiveLayoutNode, tb: Seq<char>) -> Option<
    Map<Seq<char>, (Seq<char>, Seq<char>)>,
> {
    crate::layout::spec_locations(tree_located(a, ta) + tree_located(b, tb))
}

fn locate_both(a: &LiveLayoutNode, ta: &str, b: &LiveLayoutNode, tb: &str) -> (r: Result<PaneLocations, String>)
    ensures
        match both_located(*a, ta@, *b, tb@) {
            Some(m) => r matches Ok(t) && t.wf() && crate::layout::locations_match(t@, m),
            None => r matches Err(e) && e@ == "Herdr returned duplicate panes in the saved layouts"@,
        },
{
    let trees: Vec<(&LiveLayoutNode, &str)> = vec![(a, ta), (b, tb)];
    let ghost l = trees@;
    assert(l.drop_last().drop_last() =~= Seq::<(&LiveLayoutNode, &str)>::empty());
    assert(crate::layout::located(l.drop_last()) =~= tree_located(*a, ta@)) by {
        assert(crate::layout::located(l.drop_last().drop_last()) =~= Seq::<(Seq<char>, Seq<char>)>::empty());
    }
    assert(crate::layout::located(l) =~= tree_located(*a, ta@) + tree_located(*b, tb@));
    crate::layout::pane_locations(trees.as_slice())
}

/// What moving an agent's layout into Hunkle's tab gives: the layout Hunkle's
/// tab shows and where each saved pane lives now.
#[derive(Debug)]
pub struct AgentLayoutMoveResult {
    pub layout: crate::layout::AgentLayout,
    pub pane_locations: PaneLocations,
}

pub open spec fn move_result_view(r: Result<AgentLayoutMoveResult, String>) -> Result<(LiveLayoutNode, Locations), Seq<char>> {
    match r {
        Ok(m) => Ok((m.layout.root, m.pane_locations@)),
        Err(e) => Err(e@),
    }
}

/// The target is rebuilt in Hunkle's tab and checked: Hunkle keeps the
/// focus, and a rebuilt agent of several panes is focused once so that it
/// redraws. The result is the tree Hunkle's tab shows.
pub open spec fn attempted<R: Fn(&Vec<String>) -> Result<Json, String>, A: Fn(&String, &Json) -> Result<Json, String>, T: Fn(u32) -> String, C: Fn(u32, u32) -> bool>(
    runner: R,
    api: A,
    ratio_text: T,
    close: C,
    agent_pane: Seq<char>,
    host_pane: Seq<char>,
    host: LiveLayout,
    selected: LiveLayout,
    target: LiveLayoutNode,
    p0: Locations,
    p1: Locations,
    r: Result<LiveLayoutNode, Seq<char>>,
) -> bool {
    exists|pm: Locations, rb: Result<(), Seq<char>>| #[trigger]
        reached(pm, rb) && rebuilt(runner, ratio_text, target, host.tab_id@, p0, pm, rb) && p1 == pm && match rb {
            Err(e) => r == Err::<LiveLayoutNode, Seq<char>>(e),
            Ok(_) => attempt_checked(api, close, agent_pane, host_pane, host, selected, target, pm, r),
        }
}

pub open spec fn attempt_checked<A: Fn(&String, &Json) -> Result<Json, String>, C: Fn(u32, u32) -> bool>(
    api: A,
    close: C,
    agent_pane: Seq<char>,
    host_pane: Seq<char>,
    host: LiveLayout,
    selected: LiveLayout,
    target: LiveLayoutNode,
    p: Locations,
    r: Result<LiveLayoutNode, Seq<char>>,
) -> bool {
    exists|e: Result<LiveLayout, String>| #[trigger]
        exported(api, host.tab_id@, layout_outcome(e)) && match e {
            Err(m) => r == Err::<LiveLayoutNode, Seq<char>>(m@),
            Ok(l) => attempt_verified(api, close, agent_pane, host_pane, l, selected, target, p, r),
        }
}

pub open spec fn attempt_verified<A: Fn(&String, &Json) -> Result<Json, String>, C: Fn(u32, u32) -> bool>(
    api: A,
    close: C,
    agent_pane: Seq<char>,
    host_pane: Seq<char>,
    shown: LiveLayout,
    selected: LiveLayout,
    target: LiveLayoutNode,
    p: Locations,
    r: Result<LiveLayoutNode, Seq<char>>,
) -> bool {
    exists|v: Result<(), Seq<char>>| #[trigger]
        verified(close, shown.root, target, p, "displayed"@, v) && match v {
            Err(m) => r == Err::<LiveLayoutNode, Seq<char>>(m),
            Ok(_) => if shown.focused_pane_id@ != host_pane {
                r == Err::<LiveLayoutNode, Seq<char>>("Herdr did not preserve focus in Hunkle"@)
            } else if selected.root is Split {
                attempt_refreshed(api, agent_pane, host_pane, shown, p, r)
            } else {
                r == Ok::<LiveLayoutNode, Seq<char>>(shown.root)
            },
        }
}

pub open spec fn attempt_refreshed<A: Fn(&String, &Json) -> Result<Json, String>>(
    api: A,
    agent_pane: Seq<char>,
    host_pane: Seq<char>,
    shown: LiveLayout,
    p: Locations,
    r: Result<LiveLayoutNode, Seq<char>>,
) -> bool {
    exists|f: Result<(), Seq<char>>| #[trigger]
        refreshed(api, agent_pane, host_pane, p, f) && match f {
            Err(m) => r == Err::<LiveLayoutNode, Seq<char>>(m),
            Ok(_) => r == Ok::<LiveLayoutNode, Seq<char>>(shown.root),
        }
}

pub open spec fn node_outcome(r: Result<LiveLayoutNode, String>) -> Result<LiveLayoutNode, Seq<char>> {
    match r {
        Ok(n) => Ok(n),
        Err(e) => Err(e@),
    }
}

fn check_attempt<A: Fn(&String, &Json) -> Result<Json, String>, C: Fn(u32, u32) -> bool>(
    api: &A,
    close: &C,
    agent_pane: &str,
    host_pane: &str,
    host: &LiveLayout,
    selected: &LiveLayout,
    target: &LiveLayoutNode,
    panes: &PaneLocations,
) -> (r: Result<LiveLayoutNode, String>)
    requires
        panes.wf(),
        forall|m: &String, p: &Json| #[trigger] api.requires((m, p)),
        forall|a: u32, b: u32| #[trigger] close.requires((a, b)),
    ensures
        attempt_checked(*api, *close, agent_pane@, host_pane@, *host, *selected, *target, panes@, node_outcome(r)),
{
    let e = export_layout(api, host.tab_id.as_str());
    let ghost g = e;
    let shown = match e {
        Err(m) => {
            return Err(m);
        },
        Ok(l) => l,
    };
    let ghost sv = shown;
    let v = verify_layout(close, &shown, target, panes, "displayed");
    let ghost gv = outcome(v);
    let r = match v {
        Err(m) => Err(m),
        Ok(()) => {
            if !str_eq(shown.focused_pane_id.as_str(), host_pane) {
                Err(String::from_str("Herdr did not preserve focus in Hunkle"))
            } else if is_split(&selected.root) {
                let f = refresh_rebuilt_agent(api, agent_pane, host_pane, panes);
                let ghost gf = outcome(f);
                match f {
                    Err(m) => {
                        assert(attempt_refreshed(*api, agent_pane@, host_pane@, sv, panes@, Err(m@)));
                        Err(m)
                    },
                    Ok(()) => {
                        assert(attempt_refreshed(*api, agent_pane@, host_pane@, sv, panes@, Ok(sv.root)));
                        Ok(shown.root)
                    },
                }
            } else {
                Ok(shown.root)
            }
        },
    };
    assert(attempt_verified(*api, *close, agent_pane@, host_pane@, sv, *selected, *target, panes@, node_outcome(r)));
    r
}

fn is_split(t: &LiveLayoutNode) -> (r: bool)
    ensures
        r == (*t is Split),
{
    match t {
        LiveLayoutNode::Split { .. } => true,
        LiveLayoutNode::Pane(_) => false,
    }
}

fn attempt_restore<R: Fn(&Vec<String>) -> Result<Json, String>, A: Fn(&String, &Json) -> Result<Json, String>, T: Fn(u32) -> String, C: Fn(u32, u32) -> bool>(
    runner: &R,
    api: &A,
    ratio_text: &T,
    close: &C,
    agent_pane: &str,
    host_pane: &str,
    host: &LiveLayout,
    selected: &LiveLayout,
    target: &LiveLayoutNode,
    panes: &mut PaneLocations,
) -> (r: Result<LiveLayoutNode, String>)
    requires
        old(panes).wf(),
        forall|a: &Vec<String>| #[trigger] runner.requires((a,)),
        forall|m: &String, p: &Json| #[trigger] api.requires((m, p)),
        forall|b: u32| #[trigger] ratio_text.requires((b,)),
        forall|a: u32, b: u32| #[trigger] close.requires((a, b)),
    ensures
        final(panes).wf(),
        attempted(
            *runner,
            *api,
            *ratio_text,
            *close,
            agent_pane@,
            host_pane@,
            *host,
            *selected,
            *target,
            old(panes)@,
            final(panes)@,
            node_outcome(r),
        ),
{
    let rb = rebuild_layout(runner, ratio_text, target, host.tab_id.as_str(), panes);
    let ghost pm = panes@;
    let ghost ob = outcome(rb);
    assert(reached(pm, ob));
    match rb {
        Err(e) => Err(e),
        Ok(()) => check_attempt(api, close, agent_pane, host_pane, host, selected, target, panes),
    }
}

/// Undoing a failed move of the agent's layout: its panes are scattered to
/// new tabs of the agent's workspace, rebuilt in the tab of its first pane,
/// and both that tab and Hunkle's are checked.
pub open spec fn recovered<R: Fn(&Vec<String>) -> Result<Json, String>, A: Fn(&String, &Json) -> Result<Json, String>, T: Fn(u32) -> String, C: Fn(u32, u32) -> bool>(
    runner: R,
    api: A,
    ratio_text: T,
    close: C,
    workspace: Seq<char>,
    host: LiveLayout,
    selected: LiveLayout,
    p0: Locations,
    p1: Locations,
    r: Result<(), Seq<char>>,
) -> bool {
    exists|pm: Locations, rs: Result<Seq<char>, Seq<char>>| #[trigger]
        scatter_outcome(runner, selected.root, workspace, "restore-agent-layout"@, p0, pm, rs) && match rs {
            Err(e) => r == Err::<(), Seq<char>>(e) && p1 == pm,
            Ok(tab) => recover_rebuilt(runner, api, ratio_text, close, tab, host, selected, pm, p1, r),
        }
}

pub open spec fn recover_rebuilt<R: Fn(&Vec<String>) -> Result<Json, String>, A: Fn(&String, &Json) -> Result<Json, String>, T: Fn(u32) -> String, C: Fn(u32, u32) -> bool>(
    runner: R,
    api: A,
    ratio_text: T,
    close: C,
    tab: Seq<char>,
    host: LiveLayout,
    selected: LiveLayout,
    p0: Locations,
    p1: Locations,
    r: Result<(), Seq<char>>,
) -> bool {
    exists|pm: Locations, rb: Result<(), Seq<char>>| #[trigger]
        reached(pm, rb) && rebuilt(runner, ratio_text, selected.root, tab, p0, pm, rb) && p1 == pm && match rb {
            Err(e) => r == Err::<(), Seq<char>>(e),
            Ok(_) => recover_checked(api, close, tab, host, selected, pm, r),
        }
}

pub open spec fn recover_checked<A: Fn(&String, &Json) -> Result<Json, String>, C: Fn(u32, u32) -> bool>(
    api: A,
    close: C,
    tab: Seq<char>,
    host: LiveLayout,
    selected: LiveLayout,
    p: Locations,
    r: Result<(), Seq<char>>,
) -> bool {
    exists|e: Result<LiveLayout, String>| #[trigger]
        exported(api, tab, layout_outcome(e)) && match e {
            Err(m) => r == Err::<(), Seq<char>>(m@),
            Ok(l) => recover_verified(api, close, l, host, selected, p, r),
        }
}

pub open spec fn recover_verified<A: Fn(&String, &Json) -> Result<Json, String>, C: Fn(u32, u32) -> bool>(
    api: A,
    close: C,
    parked: LiveLayout,
    host: LiveLayout,
    selected: LiveLayout,
    p: Locations,
    r: Result<(), Seq<char>>,
) -> bool {
    exists|v: Result<(), Seq<char>>| #[trigger]
        verified(close, parked.root, selected.root, p, "previous parked"@, v) && match v {
            Err(m) => r == Err::<(), Seq<char>>(m),
            Ok(_) => recover_host(api, close, host, p, r),
        }
}

pub open spec fn recover_host<A: Fn(&String, &Json) -> Result<Json, String>, C: Fn(u32, u32) -> bool>(
    api: A,
    close: C,
    host: LiveLayout,
    p: Locations,
    r: Result<(), Seq<char>>,
) -> bool {
    exists|e: Result<LiveLayout, String>| #[trigger]
        exported(api, host.tab_id@, layout_outcome(e)) && match e {
            Err(m) => r == Err::<(), Seq<char>>(m@),
            Ok(l) => verified(close, l.root, host.root, p, "previous Hunkle"@, r),
        }
}

fn check_recovered<A: Fn(&String, &Json) -> Result<Json, String>, C: Fn(u32, u32) -> bool>(
    api: &A,
    close: &C,
    tab: &str,
    host: &LiveLayout,
    selected: &LiveLayout,
    panes: &PaneLocations,
) -> (r: Result<(), String>)
    requires
        panes.wf(),
        forall|m: &String, p: &Json| #[trigger] api.requires((m, p)),
        forall|a: u32, b: u32| #[trigger] close.requires((a, b)),
    ensures
        recover_checked(*api, *close, tab@, *host, *selected, panes@, outcome(r)),
{
    let e = export_layout(api, tab);
    let ghost g = e;
    let parked = match e {
        Err(m) => {
            return Err(m);
        },
        Ok(l) => l,
    };
    let ghost pv = parked;
    let v = verify_layout(close, &parked, &selected.root, panes, "previous parked");
    let ghost gv = outcome(v);
    let r = match v {
        Err(m) => Err(m),
        Ok(()) => {
            let h = export_layout(api, host.tab_id.as_str());
            let ghost gh = h;
            match h {
                Err(m) => Err(m),
                Ok(l) => verify_layout(close, &l, &host.root, panes, "previous Hunkle"),
            }
        },
    };
    assert(recover_verified(*api, *close, pv, *host, *selected, panes@, outcome(r)));
    r
}

fn recover_agent_layout<R: Fn(&Vec<String>) -> Result<Json, String>, A: Fn(&String, &Json) -> Result<Json, String>, T: Fn(u32) -> String, C: Fn(u32, u32) -> bool>(
    runner: &R,
    api: &A,
    ratio_text: &T,
    close: &C,
    workspace_id: &str,
    host: &LiveLayout,
    selected: &LiveLayout,
    panes: &mut PaneLocations,
) -> (r: Result<(), String>)
    requires
        old(panes).wf(),
        forall|a: &Vec<String>| #[trigger] runner.requires((a,)),
        forall|m: &String, p: &Json| #[trigger] api.requires((m, p)),
        forall|b: u32| #[trigger] ratio_text.requires((b,)),
        forall|a: u32, b: u32| #[trigger] close.requires((a, b)),
    ensures
        final(panes).wf(),
        recovered(
            *runner,
            *api,
            *ratio_text,
            *close,
            workspace_id@,
            *host,
            *selected,
            old(panes)@,
            final(panes)@,
            outcome(r),
        ),
{
    let ghost p0 = panes@;
    let scattered_to = scatter_layout(runner, &selected.root, workspace_id, "restore-agent-layout", panes);
    let ghost pm = panes@;
    let tab = match scattered_to {
        Err(e) => {
            return Err(e);
        },
        Ok(t) => t,
    };
    let rb = rebuild_layout(runner, ratio_text, &selected.root, tab.as_str(), panes);
    let ghost pb = panes@;
    let ghost ob = outcome(rb);
    assert(reached(pb, ob));
    let r = match rb {
        Err(e) => Err(e),
        Ok(()) => check_recovered(api, close, tab.as_str(), host, selected, panes),
    };
    assert(recover_rebuilt(*runner, *api, *ratio_text, *close, tab@, *host, *selected, pm, panes@, outcome(r)));
    r
}

/// Moving the agent's layout into Hunkle's tab when Hunkle shows no agent
/// layout: Hunkle must be in its tab alone. The saved panes are located,
/// the target is rebuilt and checked; a failure is undone and reported with
/// how the undoing went.
pub open spec fn moved_back<R: Fn(&Vec<String>) -> Result<Json, String>, A: Fn(&String, &Json) -> Result<Json, String>, T: Fn(u32) -> String, C: Fn(u32, u32) -> bool>(
    runner: R,
    api: A,
    ratio_text: T,
    close: C,
    request: crate::layout::DisplayAgentRequest,
    host: LiveLayout,
    selected: LiveLayout,
    r: Result<(LiveLayoutNode, Locations), Seq<char>>,
) -> bool {
    let host_pane = request.host_pane_id@;
    if !host.root.panes().contains(host_pane) {
        r == Err::<(LiveLayoutNode, Locations), Seq<char>>("Hunkle is missing from the displayed agent layout"@)
    } else if host.root.spec_without(host_pane) is Some {
        r == Err::<(LiveLayoutNode, Locations), Seq<char>>("Hunkle already has an agent layout to replace"@)
    } else {
        match both_located(host.root, host.tab_id@, selected.root, selected.tab_id@) {
            None => r == Err::<(LiveLayoutNode, Locations), Seq<char>>(
                "Herdr returned duplicate panes in the saved layouts"@,
            ),
            Some(m) => exists|target: LiveLayoutNode, p0: Locations| #[trigger]
                restore_plan(request.saved_layout, selected.root, host.root, host_pane, m, target, p0) && restore_run(
                    runner,
                    api,
                    ratio_text,
                    close,
                    request,
                    host,
                    selected,
                    target,
                    p0,
                    r,
                ),
        }
    }
}

/// The target of a move and the saved panes' locations before it.
pub open spec fn restore_plan(
    saved: Option<crate::layout::AgentLayout>,
    parked: LiveLayoutNode,
    current: LiveLayoutNode,
    host_pane: Seq<char>,
    m: Map<Seq<char>, (Seq<char>, Seq<char>)>,
    target: LiveLayoutNode,
    p0: Locations,
) -> bool {
    is_display_target(saved, parked, current, host_pane, target) && crate::layout::locations_match(p0, m)
}

pub open spec fn restore_run<R: Fn(&Vec<String>) -> Result<Json, String>, A: Fn(&String, &Json) -> Result<Json, String>, T: Fn(u32) -> String, C: Fn(u32, u32) -> bool>(
    runner: R,
    api: A,
    ratio_text: T,
    close: C,
    request: crate::layout::DisplayAgentRequest,
    host: LiveLayout,
    selected: LiveLayout,
    target: LiveLayoutNode,
    p0: Locations,
    r: Result<(LiveLayoutNode, Locations), Seq<char>>,
) -> bool {
    exists|p1: Locations, ra: Result<LiveLayoutNode, Seq<char>>| #[trigger]
        reached(p1, ra) && attempted(
            runner,
            api,
            ratio_text,
            close,
            request.pane_id@,
            request.host_pane_id@,
            host,
            selected,
            target,
            p0,
            p1,
            ra,
        ) && match ra {
            Ok(root) => r == Ok::<(LiveLayoutNode, Locations), Seq<char>>((root, p1)),
            Err(e) => restore_recovered(runner, api, ratio_text, close, request.workspace_id@, host, selected, e, p1, r),
        }
}

/// The message of a failed move, with how undoing it went.
pub open spec fn undo_message(error: Seq<char>, undone: Result<(), Seq<char>>, what: Seq<char>) -> Seq<char> {
    match undone {
        Ok(_) => error + "; restored the previous "@ + what,
        Err(x) => error + "; could not restore the previous "@ + what + ": "@ + x,
    }
}

pub open spec fn restore_recovered<R: Fn(&Vec<String>) -> Result<Json, String>, A: Fn(&String, &Json) -> Result<Json, String>, T: Fn(u32) -> String, C: Fn(u32, u32) -> bool>(
    runner: R,
    api: A,
    ratio_text: T,
    close: C,
    workspace: Seq<char>,
    host: LiveLayout,
    selected: LiveLayout,
    error: Seq<char>,
    p1: Locations,
    r: Result<(LiveLayoutNode, Locations), Seq<char>>,
) -> bool {
    exists|p2: Locations, rr: Result<(), Seq<char>>| #[trigger]
        reached(p2, rr) && recovered(runner, api, ratio_text, close, workspace, host, selected, p1, p2, rr)
            && r == Err::<(LiveLayoutNode, Locations), Seq<char>>(undo_message(error, rr, "layout"@))
}

fn undo_error(error: String, undone: &Result<(), String>, what: &str) -> (r: String)
    ensures
        r@ == undo_message(error@, outcome(*undone), what@),
{
    let mut message = error;
    match undone {
        Ok(()) => {
            append_str(&mut message, "; restored the previous ");
            append_str(&mut message, what);
        },
        Err(x) => {
            append_str(&mut message, "; could not restore the previous ");
            append_str(&mut message, what);
            append_str(&mut message, ": ");
            append_str(&mut message, x.as_str());
        },
    }
    message
}

/// Moves the agent's layout into Hunkle's tab, where Hunkle is alone.
pub fn restore_exported_agent_layout<R: Fn(&Vec<String>) -> Result<Json, String>, A: Fn(&String, &Json) -> Result<Json, String>, T: Fn(u32) -> String, C: Fn(u32, u32) -> bool>(
    runner: &R,
    api: &A,
    ratio_text: &T,
    close: &C,
    request: &crate::layout::DisplayAgentRequest,
    host: LiveLayout,
    selected: LiveLayout,
) -> (r: Result<AgentLayoutMoveResult, String>)
    requires
        forall|a: &Vec<String>| #[trigger] runner.requires((a,)),
        forall|m: &String, p: &Json| #[trigger] api.requires((m, p)),
        forall|b: u32| #[trigger] ratio_text.requires((b,)),
        forall|a: u32, b: u32| #[trigger] close.requires((a, b)),
    ensures
        moved_back(*runner, *api, *ratio_text, *close, *request, host, selected, move_result_view(r)),
        r matches Ok(m) ==> m.pane_locations.wf(),
{
    let host_pane = request.host_pane_id.as_str();
    match crate::layout::layout_without_host(&host.root, host_pane) {
        Err(e) => {
            return Err(e);
        },
        Ok(Some(_)) => {
            return Err(String::from_str("Hunkle already has an agent layout to replace"));
        },
        Ok(None) => {},
    }
    let target = display_target(&request.saved_layout, &selected.root, &host.root, host_pane);
    let mut panes = match locate_both(&host.root, host.tab_id.as_str(), &selected.root, selected.tab_id.as_str()) {
        Err(e) => {
            return Err(e);
        },
        Ok(t) => t,
    };
    let ghost p0 = panes@;
    proof {
        match both_located(host.root, host.tab_id@, selected.root, selected.tab_id@) {
            Some(m) => {
                assert(restore_plan(request.saved_layout, selected.root, host.root, host_pane@, m, target, p0));
            },
            None => {},
        }
    }
    let attempt = attempt_restore(
        runner,
        api,
        ratio_text,
        close,
        request.pane_id.as_str(),
        host_pane,
        &host,
        &selected,
        &target,
        &mut panes,
    );
    let ghost p1 = panes@;
    let ghost ra = node_outcome(attempt);
    assert(reached(p1, ra));
    match attempt {
        Ok(root) => {
            let r = Ok(AgentLayoutMoveResult { layout: crate::layout::AgentLayout { root }, pane_locations: panes });
            assert(restore_run(*runner, *api, *ratio_text, *close, *request, host, selected, target, p0, move_result_view(r)));
            r
        },
        Err(error) => {
            let ghost ev = error@;
            let recovery = recover_agent_layout(
                runner,
                api,
                ratio_text,
                close,
                request.workspace_id.as_str(),
                &host,
                &selected,
                &mut panes,
            );
            let ghost p2 = panes@;
            let ghost rr = outcome(recovery);
            assert(reached(p2, rr));
            let message = undo_error(error, &recovery, "layout");
            let r: Result<AgentLayoutMoveResult, String> = Err(message);
            assert(restore_recovered(*runner, *api, *ratio_text, *close, request.workspace_id@, host, selected, ev, p1, move_result_view(r)));
            assert(restore_run(*runner, *api, *ratio_text, *close, *request, host, selected, target, p0, move_result_view(r)));
            r
        },
    }
}

/// A displayed layout by value: what Hunkle's tab shows, the layout parked
/// in the agent's tab (if one was), and where each saved pane lives.
pub type DisplayedView = (LiveLayoutNode, Option<LiveLayoutNode>, Locations);

pub open spec fn displayed_view(r: Result<crate::session::DisplayAgentResult, String>) -> Result<DisplayedView, Seq<char>> {
    match r {
        Ok(d) => Ok(
            (
                d.displayed.root,
                match d.parked {
                    Some(l) => Some(l.root),
                    None => None,
                },
                d.pane_locations@,
            ),
        ),
        Err(e) => Err(e@),
    }
}

pub open spec fn pair_outcome(r: Result<(LiveLayoutNode, LiveLayoutNode), String>) -> Result<(LiveLayoutNode, LiveLayoutNode), Seq<char>> {
    match r {
        Ok(x) => Ok(x),
        Err(e) => Err(e@),
    }
}

/// What an exchange leaves: what Hunkle's tab shows, and Hunkle's previous
/// agent layout with its panes at their live ids.
pub open spec fn exchange_result(
    host: LiveLayout,
    shown: LiveLayout,
    p: Locations,
    rx: Result<(LiveLayoutNode, LiveLayoutNode), Seq<char>>,
) -> bool {
    match host.root.spec_remap(p) {
        Err(pane) => rx == Err::<(LiveLayoutNode, LiveLayoutNode), Seq<char>>(unavailable_message(pane)),
        Ok(parked) => rx == Ok::<(LiveLayoutNode, LiveLayoutNode), Seq<char>>((shown.root, parked)),
    }
}

pub open spec fn exchange_refreshed<A: Fn(&String, &Json) -> Result<Json, String>>(
    api: A,
    agent_pane: Seq<char>,
    host_pane: Seq<char>,
    host: LiveLayout,
    shown: LiveLayout,
    p: Locations,
    rx: Result<(LiveLayoutNode, LiveLayoutNode), Seq<char>>,
) -> bool {
    exists|f: Result<(), Seq<char>>| #[trigger]
        refreshed(api, agent_pane, host_pane, p, f) && match f {
            Err(m) => rx == Err::<(LiveLayoutNode, LiveLayoutNode), Seq<char>>(m),
            Ok(_) => exchange_result(host, shown, p, rx),
        }
}

/// The agent's tab must show Hunkle's previous agent layout; a layout of
/// several panes on either side makes the agent redraw.
pub open spec fn exchange_parked_checked<A: Fn(&String, &Json) -> Result<Json, String>, C: Fn(u32, u32) -> bool>(
    api: A,
    close: C,
    agent_pane: Seq<char>,
    host_pane: Seq<char>,
    host: LiveLayout,
    selected: LiveLayout,
    outgoing: LiveLayoutNode,
    shown: LiveLayout,
    parked: LiveLayout,
    p: Locations,
    rx: Result<(LiveLayoutNode, LiveLayoutNode), Seq<char>>,
) -> bool {
    exists|v: Result<(), Seq<char>>| #[trigger]
        verified(close, parked.root, outgoing, p, "parked"@, v) && match v {
            Err(m) => rx == Err::<(LiveLayoutNode, LiveLayoutNode), Seq<char>>(m),
            Ok(_) => if outgoing is Split || selected.root is Split {
                exchange_refreshed(api, agent_pane, host_pane, host, shown, p, rx)
            } else {
                exchange_result(host, shown, p, rx)
            },
        }
}

pub open spec fn exchange_parked<A: Fn(&String, &Json) -> Result<Json, String>, C: Fn(u32, u32) -> bool>(
    api: A,
    close: C,
    agent_pane: Seq<char>,
    host_pane: Seq<char>,
    host: LiveLayout,
    selected: LiveLayout,
    outgoing: LiveLayoutNode,
    shown: LiveLayout,
    p: Locations,
    rx: Result<(LiveLayoutNode, LiveLayoutNode), Seq<char>>,
) -> bool {
    exists|e: Result<LiveLayout, String>| #[trigger]
        exported(api, selected.tab_id@, layout_outcome(e)) && match e {
            Err(m) => rx == Err::<(LiveLayoutNode, LiveLayoutNode), Seq<char>>(m@),
            Ok(l) => exchange_parked_checked(api, close, agent_pane, host_pane, host, selected, outgoing, shown, l, p, rx),
        }
}

/// Hunkle's tab must show the target, with Hunkle focused.
pub open spec fn exchange_shown<A: Fn(&String, &Json) -> Result<Json, String>, C: Fn(u32, u32) -> bool>(
    api: A,
    close: C,
    agent_pane: Seq<char>,
    host_pane: Seq<char>,
    host: LiveLayout,
    selected: LiveLayout,
    outgoing: LiveLayoutNode,
    target: LiveLayoutNode,
    shown: LiveLayout,
    p: Locations,
    rx: Result<(LiveLayoutNode, LiveLayoutNode), Seq<char>>,
) -> bool {
    exists|v: Result<(), Seq<char>>| #[trigger]
        verified(close, shown.root, target, p, "displayed"@, v) && match v {
            Err(m) => rx == Err::<(LiveLayoutNode, LiveLayoutNode), Seq<char>>(m),
            Ok(_) => if shown.focused_pane_id@ != host_pane {
                rx == Err::<(LiveLayoutNode, LiveLayoutNode), Seq<char>>("Herdr did not preserve focus in Hunkle"@)
            } else {
                exchange_parked(api, close, agent_pane, host_pane, host, selected, outgoing, shown, p, rx)
            },
        }
}

pub open spec fn exchange_checked<A: Fn(&String, &Json) -> Result<Json, String>, C: Fn(u32, u32) -> bool>(
    api: A,
    close: C,
    agent_pane: Seq<char>,
    host_pane: Seq<char>,
    host: LiveLayout,
    selected: LiveLayout,
    outgoing: LiveLayoutNode,
    target: LiveLayoutNode,
    p: Locations,
    rx: Result<(LiveLayoutNode, LiveLayoutNode), Seq<char>>,
) -> bool {
    exists|e: Result<LiveLayout, String>| #[trigger]
        exported(api, host.tab_id@, layout_outcome(e)) && match e {
            Err(m) => rx == Err::<(LiveLayoutNode, LiveLayoutNode), Seq<char>>(m@),
            Ok(l) => exchange_shown(api, close, agent_pane, host_pane, host, selected, outgoing, target, l, p, rx),
        }
}

/// The exchange proper: Hunkle's previous agent layout is rebuilt in the
/// agent's tab and the target in Hunkle's tab, and both are checked.
pub open spec fn exchanged<R: Fn(&Vec<String>) -> Result<Json, String>, A: Fn(&String, &Json) -> Result<Json, String>, T: Fn(u32) -> String, C: Fn(u32, u32) -> bool>(
    runner: R,
    api: A,
    ratio_text: T,
    close: C,
    agent_pane: Seq<char>,
    host_pane: Seq<char>,
    host: LiveLayout,
    selected: LiveLayout,
    outgoing: LiveLayoutNode,
    target: LiveLayoutNode,
    p0: Locations,
    p1: Locations,
    rx: Result<(LiveLayoutNode, LiveLayoutNode), Seq<char>>,
) -> bool {
    exists|pm: Locations, rb: Result<(), Seq<char>>| #[trigger]
        reached(pm, rb) && rebuilt(runner, ratio_text, outgoing, selected.tab_id@, p0, pm, rb) && match rb {
            Err(e) => rx == Err::<(LiveLayoutNode, LiveLayoutNode), Seq<char>>(e) && p1 == pm,
            Ok(_) => exchanged_target(runner, api, ratio_text, close, agent_pane, host_pane, host, selected, outgoing, target, pm, p1, rx),
        }
}

pub open spec fn exchanged_target<R: Fn(&Vec<String>) -> Result<Json, String>, A: Fn(&String, &Json) -> Result<Json, String>, T: Fn(u32) -> String, C: Fn(u32, u32) -> bool>(
    runner: R,
    api: A,
    ratio_text: T,
    close: C,
    agent_pane: Seq<char>,
    host_pane: Seq<char>,
    host: LiveLayout,
    selected: LiveLayout,
    outgoing: LiveLayoutNode,
    target: LiveLayoutNode,
    p0: Locations,
    p1: Locations,
    rx: Result<(LiveLayoutNode, LiveLayoutNode), Seq<char>>,
) -> bool {
    exists|pm: Locations, rb: Result<(), Seq<char>>| #[trigger]
        reached(pm, rb) && rebuilt(runner, ratio_text, target, host.tab_id@, p0, pm, rb) && p1 == pm && match rb {
            Err(e) => rx == Err::<(LiveLayoutNode, LiveLayoutNode), Seq<char>>(e),
            Ok(_) => exchange_checked(api, close, agent_pane, host_pane, host, selected, outgoing, target, pm, rx),
        }
}

fn remap_pair(host_root: &LiveLayoutNode, shown_root: LiveLayoutNode, panes: &PaneLocations) -> (r: Result<
    (LiveLayoutNode, LiveLayoutNode),
    String,
>)
    requires
        panes.wf(),
    ensures
        match host_root.spec_remap(panes@) {
            Err(pane) => pair_outcome(r) == Err::<(LiveLayoutNode, LiveLayoutNode), Seq<char>>(unavailable_message(pane)),
            Ok(parked) => pair_outcome(r) == Ok::<(LiveLayoutNode, LiveLayoutNode), Seq<char>>((shown_root, parked)),
        },
{
    match host_root.remap(panes) {
        Err(m) => Err(m),
        Ok(parked) => Ok((shown_root, parked)),
    }
}

fn check_exchange<A: Fn(&String, &Json) -> Result<Json, String>, C: Fn(u32, u32) -> bool>(
    api: &A,
    close: &C,
    agent_pane: &str,
    host_pane: &str,
    host: &LiveLayout,
    selected: &LiveLayout,
    outgoing: &LiveLayoutNode,
    target: &LiveLayoutNode,
    panes: &PaneLocations,
) -> (r: Result<(LiveLayoutNode, LiveLayoutNode), String>)
    requires
        panes.wf(),
        forall|m: &String, p: &Json| #[trigger] api.requires((m, p)),
        forall|a: u32, b: u32| #[trigger] close.requires((a, b)),
    ensures
        exchange_checked(*api, *close, agent_pane@, host_pane@, *host, *selected, *outgoing, *target, panes@, pair_outcome(r)),
{
    let e = export_layout(api, host.tab_id.as_str());
    let ghost g = e;
    let shown = match e {
        Err(m) => {
            return Err(m);
        },
        Ok(l) => l,
    };
    let ghost sv = shown;
    let v = verify_layout(close, &shown, target, panes, "displayed");
    let ghost gv = outcome(v);
    let r = match v {
        Err(m) => Err(m),
        Ok(()) => {
            if !str_eq(shown.focused_pane_id.as_str(), host_pane) {
                Err(String::from_str("Herdr did not preserve focus in Hunkle"))
            } else {
                let pe = export_layout(api, selected.tab_id.as_str());
                let ghost gp = pe;
                let rp = match pe {
                    Err(m) => Err(m),
                    Ok(parked) => {
                        let ghost pv = parked;
                        let pvr = verify_layout(close, &parked, outgoing, panes, "parked");
                        let ghost gpv = outcome(pvr);
                        let rq = match pvr {
                            Err(m) => Err(m),
                            Ok(()) => {
                                let refresh = is_split(outgoing) || is_split(&selected.root);
                                if refresh {
                                    let f = refresh_rebuilt_agent(api, agent_pane, host_pane, panes);
                                    match f {
                                        Err(m) => {
                                            assert(exchange_refreshed(*api, agent_pane@, host_pane@, *host, sv, panes@, Err(m@)));
                                            Err(m)
                                        },
                                        Ok(()) => {
                                            let rr = remap_pair(&host.root, shown.root, panes);
                                            assert(exchange_result(*host, sv, panes@, pair_outcome(rr)));
                                            assert(exchange_refreshed(*api, agent_pane@, host_pane@, *host, sv, panes@, pair_outcome(rr)));
                                            rr
                                        },
                                    }
                                } else {
                                    let rr = remap_pair(&host.root, shown.root, panes);
                                    assert(exchange_result(*host, sv, panes@, pair_outcome(rr)));
                                    rr
                                }
                            },
                        };
                        assert(exchange_parked_checked(*api, *close, agent_pane@, host_pane@, *host, *selected, *outgoing, sv, pv, panes@, pair_outcome(rq)));
                        rq
                    },
                };
                assert(exchange_parked(*api, *close, agent_pane@, host_pane@, *host, *selected, *outgoing, sv, panes@, pair_outcome(rp)));
                rp
            }
        },
    };
    assert(exchange_shown(*api, *close, agent_pane@, host_pane@, *host, *selected, *outgoing, *target, sv, panes@, pair_outcome(r)));
    r
}

fn run_exchange<R: Fn(&Vec<String>) -> Result<Json, String>, A: Fn(&String, &Json) -> Result<Json, String>, T: Fn(u32) -> String, C: Fn(u32, u32) -> bool>(
    runner: &R,
    api: &A,
    ratio_text: &T,
    close: &C,
    agent_pane: &str,
    host_pane: &str,
    host: &LiveLayout,
    selected: &LiveLayout,
    outgoing: &LiveLayoutNode,
    target: &LiveLayoutNode,
    panes: &mut PaneLocations,
) -> (r: Result<(LiveLayoutNode, LiveLayoutNode), String>)
    requires
        old(panes).wf(),
        forall|a: &Vec<String>| #[trigger] runner.requires((a,)),
        forall|m: &String, p: &Json| #[trigger] api.requires((m, p)),
        forall|b: u32| #[trigger] ratio_text.requires((b,)),
        forall|a: u32, b: u32| #[trigger] close.requires((a, b)),
    ensures
        final(panes).wf(),
        exchanged(
            *runner,
            *api,
            *ratio_text,
            *close,
            agent_pane@,
            host_pane@,
            *host,
            *selected,
            *outgoing,
            *target,
            old(panes)@,
            final(panes)@,
            pair_outcome(r),
        ),
{
    let rb = rebuild_layout(runner, ratio_text, outgoing, selected.tab_id.as_str(), panes);
    let ghost pm = panes@;
    let ghost ob = outcome(rb);
    assert(reached(pm, ob));
    match rb {
        Err(e) => {
            return Err(e);
        },
        Ok(()) => {},
    }
    let rt = rebuild_layout(runner, ratio_text, target, host.tab_id.as_str(), panes);
    let ghost pt = panes@;
    let ghost ot = outcome(rt);
    assert(reached(pt, ot));
    let r = match rt {
        Err(e) => Err(e),
        Ok(()) => check_exchange(api, close, agent_pane, host_pane, host, selected, outgoing, target, panes),
    };
    assert(exchanged_target(*runner, *api, *ratio_text, *close, agent_pane@, host_pane@, *host, *selected, *outgoing, *target, pm, panes@, pair_outcome(r)));
    r
}

/// The exchange runs; a failed one is undone and reported with how the
/// undoing went.
pub open spec fn exchange_run<R: Fn(&Vec<String>) -> Result<Json, String>, A: Fn(&String, &Json) -> Result<Json, String>, T: Fn(u32) -> String, C: Fn(u32, u32) -> bool>(
    runner: R,
    api: A,
    ratio_text: T,
    close: C,
    request: crate::layout::DisplayAgentRequest,
    host: LiveLayout,
    selected: LiveLayout,
    outgoing: LiveLayoutNode,
    target: LiveLayoutNode,
    p0: Locations,
    r: Result<DisplayedView, Seq<char>>,
) -> bool {
    exists|p1: Locations, rx: Result<(LiveLayoutNode, LiveLayoutNode), Seq<char>>| #[trigger]
        reached(p1, rx) && exchanged(
            runner,
            api,
            ratio_text,
            close,
            request.pane_id@,
            request.host_pane_id@,
            host,
            selected,
            outgoing,
            target,
            p0,
            p1,
            rx,
        ) && match rx {
            Ok((shown, parked)) => r == Ok::<DisplayedView, Seq<char>>((shown, Some(parked), p1)),
            Err(e) => exchange_undone(runner, api, ratio_text, close, request, host, selected, outgoing, e, p1, r),
        }
}

pub open spec fn exchange_undone<R: Fn(&Vec<String>) -> Result<Json, String>, A: Fn(&String, &Json) -> Result<Json, String>, T: Fn(u32) -> String, C: Fn(u32, u32) -> bool>(
    runner: R,
    api: A,
    ratio_text: T,
    close: C,
    request: crate::layout::DisplayAgentRequest,
    host: LiveLayout,
    selected: LiveLayout,
    outgoing: LiveLayoutNode,
    error: Seq<char>,
    p1: Locations,
    r: Result<DisplayedView, Seq<char>>,
) -> bool {
    exists|p2: Locations, rr: Result<(), Seq<char>>| #[trigger]
        reached(p2, rr) && restored(
            runner,
            api,
            ratio_text,
            close,
            request.host_pane_id@,
            host,
            selected,
            outgoing,
            p1,
            p2,
            rr,
        ) && r == Err::<DisplayedView, Seq<char>>(undo_message(error, rr, "layouts"@))
}

/// Hunkle's previous agent layout starts to move out: its first pane goes to
/// the agent's tab, beside the agent's first pane, in halves.
pub open spec fn exchange_moved<R: Fn(&Vec<String>) -> Result<Json, String>, A: Fn(&String, &Json) -> Result<Json, String>, T: Fn(u32) -> String, C: Fn(u32, u32) -> bool>(
    runner: R,
    api: A,
    ratio_text: T,
    close: C,
    request: crate::layout::DisplayAgentRequest,
    host: LiveLayout,
    selected: LiveLayout,
    outgoing: LiveLayoutNode,
    target: LiveLayoutNode,
    p0: Locations,
    r: Result<DisplayedView, Seq<char>>,
) -> bool {
    exists|pm: Locations, rm: Result<Seq<char>, Seq<char>>| #[trigger]
        move_outcome(
            runner,
            ratio_text,
            p0,
            outgoing.panes()[0],
            selected.tab_id@,
            selected.root.panes()[0],
            LayoutDirection::Right,
            HALF_RATIO_BITS,
            pm,
            rm,
        ) && match rm {
            Err(e) => r == Err::<DisplayedView, Seq<char>>(e),
            Ok(_) => exchange_run(runner, api, ratio_text, close, request, host, selected, outgoing, target, pm, r),
        }
}

/// Exchanging Hunkle's agent layout `outgoing` with the agent's.
pub open spec fn exchange_planned<R: Fn(&Vec<String>) -> Result<Json, String>, A: Fn(&String, &Json) -> Result<Json, String>, T: Fn(u32) -> String, C: Fn(u32, u32) -> bool>(
    runner: R,
    api: A,
    ratio_text: T,
    close: C,
    request: crate::layout::DisplayAgentRequest,
    host: LiveLayout,
    selected: LiveLayout,
    outgoing: LiveLayoutNode,
    r: Result<DisplayedView, Seq<char>>,
) -> bool {
    match both_located(host.root, host.tab_id@, selected.root, selected.tab_id@) {
        None => r == Err::<DisplayedView, Seq<char>>("Herdr returned duplicate panes in the saved layouts"@),
        Some(m) => exists|target: LiveLayoutNode, p0: Locations| #[trigger]
            restore_plan(request.saved_layout, selected.root, host.root, request.host_pane_id@, m, target, p0)
                && exchange_moved(runner, api, ratio_text, close, request, host, selected, outgoing, target, p0, r),
    }
}

fn exchange_layouts<R: Fn(&Vec<String>) -> Result<Json, String>, A: Fn(&String, &Json) -> Result<Json, String>, T: Fn(u32) -> String, C: Fn(u32, u32) -> bool>(
    runner: &R,
    api: &A,
    ratio_text: &T,
    close: &C,
    request: &crate::layout::DisplayAgentRequest,
    host: &LiveLayout,
    selected: &LiveLayout,
    outgoing: &LiveLayoutNode,
) -> (r: Result<crate::session::DisplayAgentResult, String>)
    requires
        forall|a: &Vec<String>| #[trigger] runner.requires((a,)),
        forall|m: &String, p: &Json| #[trigger] api.requires((m, p)),
        forall|b: u32| #[trigger] ratio_text.requires((b,)),
        forall|a: u32, b: u32| #[trigger] close.requires((a, b)),
    ensures
        exchange_planned(*runner, *api, *ratio_text, *close, *request, *host, *selected, *outgoing, displayed_view(r)),
        r matches Ok(d) ==> d.pane_locations.wf(),
{
    let host_pane = request.host_pane_id.as_str();
    let target = display_target(&request.saved_layout, &selected.root, &host.root, host_pane);
    let mut panes = match locate_both(&host.root, host.tab_id.as_str(), &selected.root, selected.tab_id.as_str()) {
        Err(e) => {
            return Err(e);
        },
        Ok(t) => t,
    };
    let ghost p0 = panes@;
    proof {
        match both_located(host.root, host.tab_id@, selected.root, selected.tab_id@) {
            Some(m) => {
                assert(restore_plan(request.saved_layout, selected.root, host.root, host_pane@, m, target, p0));
            },
            None => {},
        }
    }
    let outgoing_root = outgoing.first_pane();
    let selected_root = selected.root.first_pane();
    let moved = move_layout_pane(
        runner,
        ratio_text,
        &mut panes,
        outgoing_root,
        selected.tab_id.as_str(),
        selected_root,
        LayoutDirection::Right,
        HALF_RATIO_BITS,
    );
    let ghost pm = panes@;
    match moved {
        Err(e) => {
            let r: Result<crate::session::DisplayAgentResult, String> = Err(e);
            return r;
        },
        Ok(_) => {},
    }
    let exchange = run_exchange(
        runner,
        api,
        ratio_text,
        close,
        request.pane_id.as_str(),
        host_pane,
        host,
        selected,
        outgoing,
        &target,
        &mut panes,
    );
    let ghost p1 = panes@;
    let ghost rx = pair_outcome(exchange);
    assert(reached(p1, rx));
    let r = match exchange {
        Ok((shown, parked)) => Ok(
            crate::session::DisplayAgentResult {
                displayed: crate::layout::AgentLayout { root: shown },
                parked: Some(crate::layout::AgentLayout { root: parked }),
                pane_locations: panes,
            },
        ),
        Err(error) => {
            let ghost ev = error@;
            let undone = restore_layouts(runner, api, ratio_text, close, host_pane, host, selected, outgoing, &mut panes);
            let ghost p2 = panes@;
            let ghost rr = outcome(undone);
            assert(reached(p2, rr));
            let message = undo_error(error, &undone, "layouts");
            let r: Result<crate::session::DisplayAgentResult, String> = Err(message);
            assert(exchange_undone(*runner, *api, *ratio_text, *close, *request, *host, *selected, *outgoing, ev, p1, displayed_view(r)));
            r
        },
    };
    assert(exchange_run(*runner, *api, *ratio_text, *close, *request, *host, *selected, *outgoing, target, pm, displayed_view(r)));
    r
}

/// Where the panes of Hunkle's tab are when the agent is in Hunkle's tab:
/// each in its own pane, in that tab.
pub open spec fn same_tab_locations(host: LiveLayout, p: Locations) -> bool {
    &&& forall|k: Seq<char>| #[trigger] p.dom().contains(k) <==> host.root.panes().contains(k)
    &&& forall|k: Seq<char>| #[trigger] p.dom().contains(k) ==> p[k]@ == (k, host.tab_id@)
}

/// The agent is in Hunkle's tab already: the tab's layout is both shown and
/// parked, each pane where it is.
pub open spec fn same_tab_shown(
    request: crate::layout::DisplayAgentRequest,
    host: LiveLayout,
    r: Result<DisplayedView, Seq<char>>,
) -> bool {
    match crate::layout::spec_validate_layouts(request, host, host) {
        Some(m) => r == Err::<DisplayedView, Seq<char>>(m),
        None => r matches Ok((d, pk, locs)) && d == host.root && pk == Some(host.root) && same_tab_locations(host, locs),
    }
}

pub open spec fn same_tab_displayed<A: Fn(&String, &Json) -> Result<Json, String>>(
    api: A,
    request: crate::layout::DisplayAgentRequest,
    r: Result<DisplayedView, Seq<char>>,
) -> bool {
    exists|e: Result<LiveLayout, String>| #[trigger]
        exported(api, request.host_tab_id@, layout_outcome(e)) && match e {
            Err(m) => r == Err::<DisplayedView, Seq<char>>(m@),
            Ok(host) => same_tab_shown(request, host, r),
        }
}

fn display_same_tab<A: Fn(&String, &Json) -> Result<Json, String>>(api: &A, request: &crate::layout::DisplayAgentRequest) -> (r: Result<
    crate::session::DisplayAgentResult,
    String,
>)
    requires
        forall|m: &String, p: &Json| #[trigger] api.requires((m, p)),
    ensures
        same_tab_displayed(*api, *request, displayed_view(r)),
        r matches Ok(d) ==> d.pane_locations.wf(),
{
    let e = export_layout(api, request.host_tab_id.as_str());
    let ghost g = e;
    let host = match e {
        Err(m) => {
            return Err(m);
        },
        Ok(l) => l,
    };
    match crate::layout::validate_layouts(request, &host, &host) {
        Err(m) => {
            return Err(m);
        },
        Ok(()) => {},
    }
    let mut ids: Vec<String> = Vec::new();
    host.root.collect_panes(&mut ids);
    assert(crate::layout::views(ids@) =~= host.root.panes());
    let ghost all = host.root.panes();
    let mut panes: PaneLocations = crate::keyed::TextTable::new();
    let mut i: usize = 0;
    while i < ids.len()
        invariant
            i <= ids.len(),
            all == crate::layout::views(ids@),
            panes.wf(),
            forall|k: Seq<char>| #[trigger] panes@.dom().contains(k) <==> all.take(i as int).contains(k),
            forall|k: Seq<char>| #[trigger] panes@.dom().contains(k) ==> panes@[k]@ == (k, host.tab_id@),
        decreases ids.len() - i,
    {
        let ghost before = panes@;
        let ghost x = ids@[i as int]@;
        panes.insert(ids[i].clone(), LivePaneLocation { pane_id: ids[i].clone(), tab_id: host.tab_id.clone() });
        assert forall|k: Seq<char>| #[trigger] panes@.dom().contains(k) <==> all.take(i + 1).contains(k) by {
            if k == x {
                assert(all.take(i + 1)[i as int] == x);
            }
            if all.take(i + 1).contains(k) && k != x {
                let j = choose|j: int| 0 <= j < all.take(i + 1).len() && #[trigger] all.take(i + 1)[j] == k;
                assert(j < i);
                assert(all.take(i as int)[j] == k);
            }
            if all.take(i as int).contains(k) {
                let j = choose|j: int| 0 <= j < all.take(i as int).len() && #[trigger] all.take(i as int)[j] == k;
                assert(all.take(i + 1)[j] == k);
            }
        }
        i = i + 1;
    }
    assert(all.take(ids.len() as int) =~= all);
    let ghost hv = host;
    let shown = host.root.duplicate();
    let r = Ok(
        crate::session::DisplayAgentResult {
            displayed: crate::layout::AgentLayout { root: shown },
            parked: Some(crate::layout::AgentLayout { root: host.root }),
            pane_locations: panes,
        },
    );
    assert(same_tab_shown(*request, hv, displayed_view(r)));
    r
}

/// Both tabs were exported: after the checks, the agent's layout moves in,
/// exchanged with Hunkle's agent layout when Hunkle shows one.
pub open spec fn display_validated<R: Fn(&Vec<String>) -> Result<Json, String>, A: Fn(&String, &Json) -> Result<Json, String>, T: Fn(u32) -> String, C: Fn(u32, u32) -> bool>(
    runner: R,
    api: A,
    ratio_text: T,
    close: C,
    request: crate::layout::DisplayAgentRequest,
    host: LiveLayout,
    selected: LiveLayout,
    r: Result<DisplayedView, Seq<char>>,
) -> bool {
    let host_pane = request.host_pane_id@;
    match crate::layout::spec_validate_layouts(request, host, selected) {
        Some(m) => r == Err::<DisplayedView, Seq<char>>(m),
        None => if !host.root.panes().contains(host_pane) {
            r == Err::<DisplayedView, Seq<char>>("Hunkle is missing from the displayed agent layout"@)
        } else {
            match host.root.spec_without(host_pane) {
                None => exists|rm: Result<(LiveLayoutNode, Locations), Seq<char>>| #[trigger]
                    moved_back(runner, api, ratio_text, close, request, host, selected, rm) && match rm {
                        Err(m) => r == Err::<DisplayedView, Seq<char>>(m),
                        Ok((root, locs)) => r == Ok::<DisplayedView, Seq<char>>((root, None, locs)),
                    },
                Some(outgoing) => exchange_planned(runner, api, ratio_text, close, request, host, selected, outgoing, r),
            }
        },
    }
}

pub open spec fn display_selected<R: Fn(&Vec<String>) -> Result<Json, String>, A: Fn(&String, &Json) -> Result<Json, String>, T: Fn(u32) -> String, C: Fn(u32, u32) -> bool>(
    runner: R,
    api: A,
    ratio_text: T,
    close: C,
    request: crate::layout::DisplayAgentRequest,
    host: LiveLayout,
    r: Result<DisplayedView, Seq<char>>,
) -> bool {
    exists|e: Result<LiveLayout, String>| #[trigger]
        exported(api, request.tab_id@, layout_outcome(e)) && match e {
            Err(m) => r == Err::<DisplayedView, Seq<char>>(m@),
            Ok(selected) => display_validated(runner, api, ratio_text, close, request, host, selected, r),
        }
}

pub open spec fn display_exchanged<R: Fn(&Vec<String>) -> Result<Json, String>, A: Fn(&String, &Json) -> Result<Json, String>, T: Fn(u32) -> String, C: Fn(u32, u32) -> bool>(
    runner: R,
    api: A,
    ratio_text: T,
    close: C,
    request: crate::layout::DisplayAgentRequest,
    r: Result<DisplayedView, Seq<char>>,
) -> bool {
    exists|e: Result<LiveLayout, String>| #[trigger]
        exported(api, request.host_tab_id@, layout_outcome(e)) && match e {
            Err(m) => r == Err::<DisplayedView, Seq<char>>(m@),
            Ok(host) => display_selected(runner, api, ratio_text, close, request, host, r),
        }
}

/// Displaying an agent in Hunkle's tab: refused across workspaces unless
/// the settings allow it; nothing moves when the agent is in Hunkle's tab;
/// else both tabs are exported and the layouts exchanged.
pub open spec fn displayed_outcome<R: Fn(&Vec<String>) -> Result<Json, String>, A: Fn(&String, &Json) -> Result<Json, String>, T: Fn(u32) -> String, C: Fn(u32, u32) -> bool>(
    runner: R,
    api: A,
    ratio_text: T,
    close: C,
    request: crate::layout::DisplayAgentRequest,
    r: Result<DisplayedView, Seq<char>>,
) -> bool {
    if request.workspace_id@ != request.host_workspace_id@ && !request.allow_cross_workspace {
        r == Err::<DisplayedView, Seq<char>>("Cross-workspace agents are disabled in Settings"@)
    } else if request.tab_id@ == request.host_tab_id@ {
        same_tab_displayed(api, request, r)
    } else {
        display_exchanged(runner, api, ratio_text, close, request, r)
    }
}

fn display_between<R: Fn(&Vec<String>) -> Result<Json, String>, A: Fn(&String, &Json) -> Result<Json, String>, T: Fn(u32) -> String, C: Fn(u32, u32) -> bool>(
    runner: &R,
    api: &A,
    ratio_text: &T,
    close: &C,
    request: &crate::layout::DisplayAgentRequest,
    host: LiveLayout,
    selected: LiveLayout,
) -> (r: Result<crate::session::DisplayAgentResult, String>)
    requires
        forall|a: &Vec<String>| #[trigger] runner.requires((a,)),
        forall|m: &String, p: &Json| #[trigger] api.requires((m, p)),
        forall|b: u32| #[trigger] ratio_text.requires((b,)),
        forall|a: u32, b: u32| #[trigger] close.requires((a, b)),
    ensures
        display_validated(*runner, *api, *ratio_text, *close, *request, host, selected, displayed_view(r)),
        r matches Ok(d) ==> d.pane_locations.wf(),
{
    match crate::layout::validate_layouts(request, &host, &selected) {
        Err(m) => {
            return Err(m);
        },
        Ok(()) => {},
    }
    match crate::layout::layout_without_host(&host.root, request.host_pane_id.as_str()) {
        Err(e) => Err(e),
        Ok(None) => {
            let ghost hv = host;
            let ghost sv = selected;
            let moved = restore_exported_agent_layout(runner, api, ratio_text, close, request, host, selected);
            let ghost rm = move_result_view(moved);
            let r = match moved {
                Err(m) => Err(m),
                Ok(result) => Ok(
                    crate::session::DisplayAgentResult {
                        displayed: result.layout,
                        parked: None,
                        pane_locations: result.pane_locations,
                    },
                ),
            };
            assert(moved_back(*runner, *api, *ratio_text, *close, *request, hv, sv, rm));
            r
        },
        Ok(Some(outgoing)) => exchange_layouts(runner, api, ratio_text, close, request, &host, &selected, &outgoing),
    }
}

/// Shows the agent of `request` in Hunkle's tab, exchanging layouts with the
/// agent Hunkle showed; every rebuilt layout is checked against Herdr's
/// export, and a failed exchange is undone.
pub fn display_agent_with<R: Fn(&Vec<String>) -> Result<Json, String>, A: Fn(&String, &Json) -> Result<Json, String>, T: Fn(u32) -> String, C: Fn(u32, u32) -> bool>(
    runner: &R,
    api: &A,
    ratio_text: &T,
    close: &C,
    request: crate::layout::DisplayAgentRequest,
) -> (r: Result<crate::session::DisplayAgentResult, String>)
    requires
        forall|a: &Vec<String>| #[trigger] runner.requires((a,)),
        forall|m: &String, p: &Json| #[trigger] api.requires((m, p)),
        forall|b: u32| #[trigger] ratio_text.requires((b,)),
        forall|a: u32, b: u32| #[trigger] close.requires((a, b)),
    ensures
        displayed_outcome(*runner, *api, *ratio_text, *close, request, displayed_view(r)),
        r matches Ok(d) ==> d.pane_locations.wf(),
{
    if !str_eq(request.workspace_id.as_str(), request.host_workspace_id.as_str()) && !request.allow_cross_workspace {
        return Err(String::from_str("Cross-workspace agents are disabled in Settings"));
    }
    if str_eq(request.tab_id.as_str(), request.host_tab_id.as_str()) {
        return display_same_tab(api, &request);
    }
    let he = export_layout(api, request.host_tab_id.as_str());
    let ghost gh = he;
    let host = match he {
        Err(m) => {
            return Err(m);
        },
        Ok(l) => l,
    };
    let ghost hv = host;
    let se = export_layout(api, request.tab_id.as_str());
    let ghost gs = se;
    let selected = match se {
        Err(m) => {
            let r: Result<crate::session::DisplayAgentResult, String> = Err(m);
            assert(display_selected(*runner, *api, *ratio_text, *close, request, hv, displayed_view(r)));
            return r;
        },
        Ok(l) => l,
    };
    let r = display_between(runner, api, ratio_text, close, &request, host, selected);
    assert(display_selected(*runner, *api, *ratio_text, *close, request, hv, displayed_view(r)));
    r
}

/// Restoring an agent's saved layout in Hunkle's tab, where Hunkle is
/// alone: both tabs are exported and checked first.
pub open spec fn restore_requested<R: Fn(&Vec<String>) -> Result<Json, String>, A: Fn(&String, &Json) -> Result<Json, String>, T: Fn(u32) -> String, C: Fn(u32, u32) -> bool>(
    runner: R,
    api: A,
    ratio_text: T,
    close: C,
    request: crate::layout::DisplayAgentRequest,
    r: Result<(LiveLayoutNode, Locations), Seq<char>>,
) -> bool {
    if request.workspace_id@ != request.host_workspace_id@ && !request.allow_cross_workspace {
        r == Err::<(LiveLayoutNode, Locations), Seq<char>>("Cross-workspace agents are disabled in Settings"@)
    } else {
        exists|e: Result<LiveLayout, String>| #[trigger]
            exported(api, request.host_tab_id@, layout_outcome(e)) && match e {
                Err(m) => r == Err::<(LiveLayoutNode, Locations), Seq<char>>(m@),
                Ok(host) => restore_selected(runner, api, ratio_text, close, request, host, r),
            }
    }
}

pub open spec fn restore_selected<R: Fn(&Vec<String>) -> Result<Json, String>, A: Fn(&String, &Json) -> Result<Json, String>, T: Fn(u32) -> String, C: Fn(u32, u32) -> bool>(
    runner: R,
    api: A,
    ratio_text: T,
    close: C,
    request: crate::layout::DisplayAgentRequest,
    host: LiveLayout,
    r: Result<(LiveLayoutNode, Locations), Seq<char>>,
) -> bool {
    exists|e: Result<LiveLayout, String>| #[trigger]
        exported(api, request.tab_id@, layout_outcome(e)) && match e {
            Err(m) => r == Err::<(LiveLayoutNode, Locations), Seq<char>>(m@),
            Ok(selected) => match crate::layout::spec_validate_layouts(request, host, selected) {
                Some(m) => r == Err::<(LiveLayoutNode, Locations), Seq<char>>(m),
                None => moved_back(runner, api, ratio_text, close, request, host, selected, r),
            },
        }
}

/// Restores an agent's saved layout in Hunkle's tab, where Hunkle is alone.
pub fn restore_agent_layout_with<R: Fn(&Vec<String>) -> Result<Json, String>, A: Fn(&String, &Json) -> Result<Json, String>, T: Fn(u32) -> String, C: Fn(u32, u32) -> bool>(
    runner: &R,
    api: &A,
    ratio_text: &T,
    close: &C,
    request: crate::layout::DisplayAgentRequest,
) -> (r: Result<AgentLayoutMoveResult, String>)
    requires
        forall|a: &Vec<String>| #[trigger] runner.requires((a,)),
        forall|m: &String, p: &Json| #[trigger] api.requires((m, p)),
        forall|b: u32| #[trigger] ratio_text.requires((b,)),
        forall|a: u32, b: u32| #[trigger] close.requires((a, b)),
    ensures
        restore_requested(*runner, *api, *ratio_text, *close, request, move_result_view(r)),
        r matches Ok(m) ==> m.pane_locations.wf(),
{
    if !str_eq(request.workspace_id.as_str(), request.host_workspace_id.as_str()) && !request.allow_cross_workspace {
        return Err(String::from_str("Cross-workspace agents are disabled in Settings"));
    }
    let he = export_layout(api, request.host_tab_id.as_str());
    let ghost gh = he;
    let host = match he {
        Err(m) => {
            return Err(m);
        },
        Ok(l) => l,
    };
    let ghost hv = host;
    let se = export_layout(api, request.tab_id.as_str());
    let ghost gs = se;
    let selected = match se {
        Err(m) => {
            let r: Result<AgentLayoutMoveResult, String> = Err(m);
            assert(restore_selected(*runner, *api, *ratio_text, *close, request, hv, move_result_view(r)));
            return r;
        },
        Ok(l) => l,
    };
    let ghost sv = selected;
    let r = match crate::layout::validate_layouts(&request, &host, &selected) {
        Err(m) => Err(m),
        Ok(()) => restore_exported_agent_layout(runner, api, ratio_text, close, &request, host, selected),
    };
    assert(restore_selected(*runner, *api, *ratio_text, *close, request, hv, move_result_view(r)));
    r
}

} // verus!
