//! Herdr's session snapshot: its workspaces and agent panes, read from the
//! JSON that `herdr api snapshot` replies.
use vstd::prelude::*;
use crate::json::{
    as_flag, as_items, as_text, as_unsigned, field, field_of, flag, get, get_of, items, text, text_field,
    text_member, unsigned, Json,
};
use crate::agent::{
    parse_agent_status, spec_parse_agent_status, str_eq, AgentPane, AgentRuntime, AgentSessionIdentity,
    AgentStatus, AgentTimingKey, SessionIdentityView, TimingKeyView,
};
use crate::session::HerdrWorkspace;
use crate::text::{append_str, chars_of, is_control, string_of, trim, trim_chars};

verus! {

/// Text that may be missing, by value.
pub open spec fn opt_text(o: Option<String>) -> Option<Seq<char>> {
    match o {
        Some(s) => Some(s@),
        None => None,
    }
}

/// The first item whose member `key` has the text `value`.
pub open spec fn first_with_text(s: Seq<Json>, key: Seq<char>, value: Seq<char>) -> Option<Json>
    decreases s.len(),
{
    if s.len() == 0 {
        None
    } else if text_field(s[0], key) == Some(value) {
        Some(s[0])
    } else {
        first_with_text(s.drop_first(), key, value)
    }
}

/// Finds the first item whose member `key` has the text `value`.
pub fn find_with_text<'a>(s: &'a Vec<Json>, key: &str, value: &str) -> (r: Option<&'a Json>)
    ensures
        match first_with_text(s@, key@, value@) {
            Some(v) => r matches Some(x) && *x == v,
            None => r is None,
        },
{
    let mut i: usize = 0;
    assert(s@.skip(0) =~= s@);
    while i < s.len()
        invariant
            i <= s.len(),
            first_with_text(s@, key@, value@) == first_with_text(s@.skip(i as int), key@, value@),
        decreases s.len() - i,
    {
        let ghost rest = s@.skip(i as int);
        assert(rest[0] == s@[i as int]);
        match text_member(&s[i], key) {
            Some(t) => {
                if str_eq(t.as_str(), value) {
                    return Some(&s[i]);
                }
            },
            None => {},
        }
        assert(rest.drop_first() =~= s@.skip(i + 1));
        i = i + 1;
    }
    None
}

/// Whether an item lies in the workspace `wid` and, when `m` is given, has
/// the text `m.1` in its member `m.0`.
pub open spec fn in_workspace(p: Json, wid: Seq<char>, m: Option<(Seq<char>, Seq<char>)>) -> bool {
    &&& text_field(p, "workspace_id"@) == Some(wid)
    &&& match m {
        None => true,
        Some((k, v)) => text_field(p, k) == Some(v),
    }
}

/// The first item that `in_workspace` holds of.
pub open spec fn first_in_workspace(s: Seq<Json>, wid: Seq<char>, m: Option<(Seq<char>, Seq<char>)>) -> Option<Json>
    decreases s.len(),
{
    if s.len() == 0 {
        None
    } else if in_workspace(s[0], wid, m) {
        Some(s[0])
    } else {
        first_in_workspace(s.drop_first(), wid, m)
    }
}

fn item_in_workspace(p: &Json, wid: &str, key: Option<&str>, value: Option<&str>) -> (r: bool)
    requires
        key is Some <==> value is Some,
    ensures
        r == in_workspace(
            *p,
            wid@,
            match key {
                Some(k) => Some((k@, value.unwrap()@)),
                None => None,
            },
        ),
{
    let in_ws = match text_member(p, "workspace_id") {
        Some(t) => str_eq(t.as_str(), wid),
        None => false,
    };
    if !in_ws {
        return false;
    }
    match key {
        None => true,
        Some(k) => match text_member(p, k) {
            Some(t) => str_eq(t.as_str(), value.unwrap()),
            None => false,
        },
    }
}

/// Finds the first item that `in_workspace` holds of.
pub fn find_in_workspace<'a>(s: &'a Vec<Json>, wid: &str, key: Option<&str>, value: Option<&str>) -> (r: Option<
    &'a Json,
>)
    requires
        key is Some <==> value is Some,
    ensures
        ({
            let m = match key {
                Some(k) => Some((k@, value.unwrap()@)),
                None => None,
            };
            match first_in_workspace(s@, wid@, m) {
                Some(v) => r matches Some(x) && *x == v,
                None => r is None,
            }
        }),
{
    let ghost m = match key {
        Some(k) => Some((k@, value.unwrap()@)),
        None => None,
    };
    let mut i: usize = 0;
    assert(s@.skip(0) =~= s@);
    while i < s.len()
        invariant
            i <= s.len(),
            key is Some <==> value is Some,
            m == (match key {
                Some(k) => Some((k@, value.unwrap()@)),
                None => None,
            }),
            first_in_workspace(s@, wid@, m) == first_in_workspace(s@.skip(i as int), wid@, m),
        decreases s.len() - i,
    {
        let ghost rest = s@.skip(i as int);
        assert(rest[0] == s@[i as int]);
        if item_in_workspace(&s[i], wid, key, value) {
            return Some(&s[i]);
        }
        assert(rest.drop_first() =~= s@.skip(i + 1));
        i = i + 1;
    }
    None
}

/// The first layout of the tab `tab` (which may be missing) of the workspace `wid`.
pub open spec fn first_layout(s: Seq<Json>, wid: Seq<char>, tab: Option<Seq<char>>) -> Option<Json>
    decreases s.len(),
{
    if s.len() == 0 {
        None
    } else if text_field(s[0], "workspace_id"@) == Some(wid) && text_field(s[0], "tab_id"@) == tab {
        Some(s[0])
    } else {
        first_layout(s.drop_first(), wid, tab)
    }
}

fn same_text(a: Option<String>, b: Option<&String>) -> (r: bool)
    ensures
        r == (opt_text(a) == match b {
            Some(s) => Some(s@),
            None => None::<Seq<char>>,
        }),
{
    match (a, b) {
        (Some(x), Some(y)) => str_eq(x.as_str(), y.as_str()),
        (None, None) => true,
        _ => false,
    }
}

fn find_layout<'a>(s: &'a Vec<Json>, wid: &str, tab: Option<&String>) -> (r: Option<&'a Json>)
    ensures
        ({
            let t = match tab {
                Some(x) => Some(x@),
                None => None,
            };
            match first_layout(s@, wid@, t) {
                Some(v) => r matches Some(x) && *x == v,
                None => r is None,
            }
        }),
{
    let ghost t = match tab {
        Some(x) => Some(x@),
        None => None,
    };
    let mut i: usize = 0;
    assert(s@.skip(0) =~= s@);
    while i < s.len()
        invariant
            i <= s.len(),
            t == (match tab {
                Some(x) => Some(x@),
                None => None,
            }),
            first_layout(s@, wid@, t) == first_layout(s@.skip(i as int), wid@, t),
        decreases s.len() - i,
    {
        let ghost rest = s@.skip(i as int);
        assert(rest[0] == s@[i as int]);
        let in_ws = match text_member(&s[i], "workspace_id") {
            Some(w) => str_eq(w.as_str(), wid),
            None => false,
        };
        if in_ws && same_text(text_member(&s[i], "tab_id"), tab) {
            return Some(&s[i]);
        }
        assert(rest.drop_first() =~= s@.skip(i + 1));
        i = i + 1;
    }
    None
}

/// A pane's working directory: its foreground process's, else its own.
pub open spec fn pane_cwd(p: Json) -> Option<Seq<char>> {
    match text_field(p, "foreground_cwd"@) {
        Some(c) => Some(c),
        None => text_field(p, "cwd"@),
    }
}

fn pane_cwd_of(p: &Json) -> (r: Option<String>)
    ensures
        opt_text(r) == pane_cwd(*p),
{
    match text_member(p, "foreground_cwd") {
        Some(c) => Some(c),
        None => text_member(p, "cwd"),
    }
}

/// The path of a workspace: its worktree's checkout, else the directory of
/// the pane it shows (the focused pane of its active tab, else a pane of
/// that tab, else its first pane).
pub open spec fn spec_workspace_path(ws: Json, snapshot: Json) -> Option<Seq<char>> {
    match text(field_of(field(ws, "worktree"@), "checkout_path"@)) {
        Some(p) => Some(p),
        None => match (text_field(ws, "workspace_id"@), items(field(snapshot, "panes"@))) {
            (Some(wid), Some(panes)) => {
                let active = text_field(ws, "active_tab_id"@);
                let layouts = match items(field(snapshot, "layouts"@)) {
                    Some(l) => l,
                    None => seq![],
                };
                let focused = text(field_of(first_layout(layouts, wid, active), "focused_pane_id"@));
                let by_focus = match focused {
                    Some(f) => first_in_workspace(panes, wid, Some(("pane_id"@, f))),
                    None => None,
                };
                let by_tab = match active {
                    Some(a) => first_in_workspace(panes, wid, Some(("tab_id"@, a))),
                    None => None,
                };
                let pane = if by_focus is Some {
                    by_focus
                } else if by_tab is Some {
                    by_tab
                } else {
                    first_in_workspace(panes, wid, None)
                };
                match pane {
                    Some(p) => pane_cwd(p),
                    None => None,
                }
            },
            _ => None,
        },
    }
}

/// The path of a workspace in the snapshot.
pub fn workspace_path(ws: &Json, snapshot: &Json) -> (r: Option<String>)
    ensures
        opt_text(r) == spec_workspace_path(*ws, *snapshot),
{
    match as_text(get_of(get(ws, "worktree"), "checkout_path")) {
        Some(p) => {
            return Some(p);
        },
        None => {},
    }
    let wid = match text_member(ws, "workspace_id") {
        Some(w) => w,
        None => {
            return None;
        },
    };
    let panes = match as_items(get(snapshot, "panes")) {
        Some(p) => p,
        None => {
            return None;
        },
    };
    let active = text_member(ws, "active_tab_id");
    let empty: Vec<Json> = Vec::new();
    let layouts = match as_items(get(snapshot, "layouts")) {
        Some(l) => l,
        None => &empty,
    };
    let layout = find_layout(layouts, wid.as_str(), active.as_ref());
    let focused = as_text(get_of(layout, "focused_pane_id"));
    let by_focus = match &focused {
        Some(f) => find_in_workspace(panes, wid.as_str(), Some("pane_id"), Some(f.as_str())),
        None => None,
    };
    let pane = match by_focus {
        Some(p) => Some(p),
        None => {
            let by_tab = match &active {
                Some(a) => find_in_workspace(panes, wid.as_str(), Some("tab_id"), Some(a.as_str())),
                None => None,
            };
            match by_tab {
                Some(p) => Some(p),
                None => find_in_workspace(panes, wid.as_str(), None, None),
            }
        },
    };
    match pane {
        Some(p) => pane_cwd_of(p),
        None => None,
    }
}

/// A workspace as parsed, before parents are assigned: the workspace and
/// its worktree's repository key.
#[derive(Debug)]
pub struct ParsedWorkspace {
    pub repo_key: Option<String>,
    pub workspace: HerdrWorkspace,
}

/// A workspace by value.
pub struct WorkspaceView {
    pub id: Seq<char>,
    pub label: Seq<char>,
    pub path: Option<Seq<char>>,
    pub branch: Option<Seq<char>>,
    pub parent_workspace_id: Option<Seq<char>>,
    pub repo_root: Option<Seq<char>>,
    pub linked_worktree: bool,
}

pub open spec fn workspace_view(w: HerdrWorkspace) -> WorkspaceView {
    WorkspaceView {
        id: w.id@,
        label: w.label@,
        path: opt_text(w.path),
        branch: opt_text(w.branch),
        parent_workspace_id: opt_text(w.parent_workspace_id),
        repo_root: opt_text(w.repo_root),
        linked_worktree: w.linked_worktree,
    }
}

/// A workspace's worktree member, when it is an object.
pub open spec fn worktree_of(ws: Json) -> Option<Json> {
    match field(ws, "worktree"@) {
        Some(Json::Object(f)) => Some(Json::Object(f)),
        _ => None,
    }
}

/// A workspace of the snapshot with its repository key, parent unassigned;
/// nothing when it has no id or label.
pub open spec fn spec_workspace(ws: Json, snapshot: Json) -> Option<(WorkspaceView, Option<Seq<char>>)> {
    let worktree = worktree_of(ws);
    match (text_field(ws, "workspace_id"@), text_field(ws, "label"@)) {
        (Some(id), Some(label)) => Some(
            (
                WorkspaceView {
                    id,
                    label,
                    path: spec_workspace_path(ws, snapshot),
                    branch: None,
                    parent_workspace_id: None,
                    repo_root: text(field_of(worktree, "repo_root"@)),
                    linked_worktree: match flag(field_of(worktree, "is_linked_worktree"@)) {
                        Some(b) => b,
                        None => false,
                    },
                },
                text(field_of(worktree, "repo_key"@)),
            ),
        ),
        _ => None,
    }
}

pub open spec fn parsed_view(p: ParsedWorkspace) -> (WorkspaceView, Option<Seq<char>>) {
    (workspace_view(p.workspace), opt_text(p.repo_key))
}

/// Reads a workspace of the snapshot.
pub fn parse_workspace(ws: &Json, snapshot: &Json) -> (r: Option<ParsedWorkspace>)
    ensures
        match spec_workspace(*ws, *snapshot) {
            Some(v) => r matches Some(p) && parsed_view(p) == v,
            None => r is None,
        },
{
    let worktree = match get(ws, "worktree") {
        Some(w) => match w {
            Json::Object(_) => Some(w),
            _ => None,
        },
        None => None,
    };
    let id = match text_member(ws, "workspace_id") {
        Some(id) => id,
        None => {
            return None;
        },
    };
    let label = match text_member(ws, "label") {
        Some(l) => l,
        None => {
            return None;
        },
    };
    let linked = match as_flag(get_of(worktree, "is_linked_worktree")) {
        Some(b) => b,
        None => false,
    };
    Some(
        ParsedWorkspace {
            repo_key: as_text(get_of(worktree, "repo_key")),
            workspace: HerdrWorkspace {
                id,
                label,
                path: workspace_path(ws, snapshot),
                branch: None,
                parent_workspace_id: None,
                repo_root: as_text(get_of(worktree, "repo_root")),
                linked_worktree: linked,
            },
        },
    )
}

/// The first workspace from `from` on that is no linked worktree and whose
/// path is `root` (both may be missing).
pub open spec fn first_root(ws: Seq<(WorkspaceView, Option<Seq<char>>)>, root: Option<Seq<char>>, from: int) -> Option<int>
    decreases ws.len() - from,
{
    if from < 0 || from >= ws.len() {
        None
    } else if !ws[from].0.linked_worktree && ws[from].0.path == root {
        Some(from)
    } else {
        first_root(ws, root, from + 1)
    }
}

/// The first workspace from `from` on that is no linked worktree and has the
/// repository key `key`.
pub open spec fn first_keyed(ws: Seq<(WorkspaceView, Option<Seq<char>>)>, key: Seq<char>, from: int) -> Option<int>
    decreases ws.len() - from,
{
    if from < 0 || from >= ws.len() {
        None
    } else if !ws[from].0.linked_worktree && ws[from].1 == Some(key) {
        Some(from)
    } else {
        first_keyed(ws, key, from + 1)
    }
}

/// The parent of workspace `i`: for a linked worktree with a repository
/// key, the first checkout at its repository root, else the first checkout
/// with its key.
pub open spec fn parent_of(ws: Seq<(WorkspaceView, Option<Seq<char>>)>, i: int) -> Option<Seq<char>> {
    let w = ws[i];
    if !w.0.linked_worktree {
        None
    } else {
        match w.1 {
            None => None,
            Some(key) => match first_root(ws, w.0.repo_root, 0) {
                Some(j) => Some(ws[j].0.id),
                None => match first_keyed(ws, key, 0) {
                    Some(j) => Some(ws[j].0.id),
                    None => None,
                },
            },
        }
    }
}

fn same_opt(a: &Option<String>, b: &Option<String>) -> (r: bool)
    ensures
        r == (opt_text(*a) == opt_text(*b)),
{
    match (a, b) {
        (Some(x), Some(y)) => str_eq(x.as_str(), y.as_str()),
        (None, None) => true,
        _ => false,
    }
}

fn find_root(ws: &Vec<ParsedWorkspace>, root: &Option<String>) -> (r: Option<usize>)
    ensures
        r is Some <==> first_root(ws@.map_values(|p: ParsedWorkspace| parsed_view(p)), opt_text(*root), 0) is Some,
        r matches Some(j) ==> first_root(ws@.map_values(|p: ParsedWorkspace| parsed_view(p)), opt_text(*root), 0)
            == Some(j as int),
        r matches Some(j) ==> j < ws.len(),
{
    let ghost views = ws@.map_values(|p: ParsedWorkspace| parsed_view(p));
    let mut i: usize = 0;
    while i < ws.len()
        invariant
            i <= ws.len(),
            views == ws@.map_values(|p: ParsedWorkspace| parsed_view(p)),
            first_root(views, opt_text(*root), 0) == first_root(views, opt_text(*root), i as int),
        decreases ws.len() - i,
    {
        if !ws[i].workspace.linked_worktree && same_opt(&ws[i].workspace.path, root) {
            return Some(i);
        }
        i = i + 1;
    }
    None
}

fn find_keyed(ws: &Vec<ParsedWorkspace>, key: &String) -> (r: Option<usize>)
    ensures
        r is Some <==> first_keyed(ws@.map_values(|p: ParsedWorkspace| parsed_view(p)), key@, 0) is Some,
        r matches Some(j) ==> first_keyed(ws@.map_values(|p: ParsedWorkspace| parsed_view(p)), key@, 0) == Some(
            j as int,
        ),
        r matches Some(j) ==> j < ws.len(),
{
    let ghost views = ws@.map_values(|p: ParsedWorkspace| parsed_view(p));
    let mut i: usize = 0;
    while i < ws.len()
        invariant
            i <= ws.len(),
            views == ws@.map_values(|p: ParsedWorkspace| parsed_view(p)),
            first_keyed(views, key@, 0) == first_keyed(views, key@, i as int),
        decreases ws.len() - i,
    {
        let keyed = match &ws[i].repo_key {
            Some(k) => str_eq(k.as_str(), key.as_str()),
            None => false,
        };
        if !ws[i].workspace.linked_worktree && keyed {
            return Some(i);
        }
        i = i + 1;
    }
    None
}

/// Sets each linked worktree's parent workspace, as `parent_of` says.
pub fn assign_worktree_parents(ws: &mut Vec<ParsedWorkspace>)
    ensures
        final(ws)@.len() == old(ws)@.len(),
        forall|i: int| 0 <= i < old(ws)@.len() ==> {
            let before = parsed_view(old(ws)@[i]);
            #[trigger] parsed_view(final(ws)@[i]) == (
                WorkspaceView { parent_workspace_id: parent_of(old(ws)@.map_values(|p: ParsedWorkspace| parsed_view(p)), i), ..before.0 },
                before.1,
            )
        },
{
    let ghost views = ws@.map_values(|p: ParsedWorkspace| parsed_view(p));
    let mut parents: Vec<Option<String>> = Vec::new();
    let mut i: usize = 0;
    while i < ws.len()
        invariant
            i <= ws.len(),
            ws@ == old(ws)@,
            views == old(ws)@.map_values(|p: ParsedWorkspace| parsed_view(p)),
            parents@.len() == i,
            forall|k: int| 0 <= k < i ==> opt_text(#[trigger] parents@[k]) == parent_of(views, k),
        decreases ws.len() - i,
    {
        assert(views[i as int] == parsed_view(ws@[i as int]));
        let parent = if !ws[i].workspace.linked_worktree {
            None
        } else {
            match &ws[i].repo_key {
                None => None,
                Some(key) => match find_root(ws, &ws[i].workspace.repo_root) {
                    Some(j) => {
                        assert(views[j as int] == parsed_view(ws@[j as int]));
                        Some(ws[j].workspace.id.clone())
                    },
                    None => match find_keyed(ws, key) {
                        Some(j) => {
                            assert(views[j as int] == parsed_view(ws@[j as int]));
                            Some(ws[j].workspace.id.clone())
                        },
                        None => None,
                    },
                },
            }
        };
        assert(opt_text(parent) == parent_of(views, i as int));
        parents.push(parent);
        i = i + 1;
    }
    let mut k: usize = 0;
    while k < ws.len()
        invariant
            k <= ws.len(),
            ws@.len() == old(ws)@.len(),
            parents@.len() == ws@.len(),
            views == old(ws)@.map_values(|p: ParsedWorkspace| parsed_view(p)),
            forall|j: int| 0 <= j < ws@.len() ==> opt_text(#[trigger] parents@[j]) == parent_of(views, j),
            forall|j: int| k <= j < ws@.len() ==> #[trigger] ws@[j] == old(ws)@[j],
            forall|j: int| 0 <= j < k ==> {
                let before = parsed_view(old(ws)@[j]);
                #[trigger] parsed_view(ws@[j]) == (
                    WorkspaceView { parent_workspace_id: parent_of(views, j), ..before.0 },
                    before.1,
                )
            },
        decreases ws.len() - k,
    {
        let parent = match &parents[k] {
            Some(p) => Some(p.clone()),
            None => None,
        };
        let mut entry = ws.remove(k);
        entry.workspace.parent_workspace_id = parent;
        ws.insert(k, entry);
        k = k + 1;
    }
}

/// The session an agent reports in its `agent_session` member.
pub open spec fn spec_session_identity(value: Json) -> Option<SessionIdentityView> {
    match field(value, "agent_session"@) {
        None => None,
        Some(session) => match (
            text_field(session, "source"@),
            text_field(session, "agent"@),
            text_field(session, "kind"@),
            text_field(session, "value"@),
        ) {
            (Some(source), Some(agent), Some(kind), Some(value)) => Some(
                SessionIdentityView { source, agent, kind, value },
            ),
            _ => None,
        },
    }
}

/// Reads the session an agent reports.
pub fn parse_agent_session_identity(value: &Json) -> (r: Option<AgentSessionIdentity>)
    ensures
        match spec_session_identity(*value) {
            Some(v) => r matches Some(i) && i@ == v,
            None => r is None,
        },
{
    let session = match get(value, "agent_session") {
        Some(s) => s,
        None => {
            return None;
        },
    };
    match (
        text_member(session, "source"),
        text_member(session, "agent"),
        text_member(session, "kind"),
        text_member(session, "value"),
    ) {
        (Some(source), Some(agent), Some(kind), Some(value)) => Some(
            AgentSessionIdentity { source, agent, kind, value },
        ),
        _ => None,
    }
}

/// The terminal title an agent reports: the stripped one, else the raw
/// one, else its title.
pub open spec fn title_of(value: Json) -> Option<Seq<char>> {
    match text_field(value, "terminal_title_stripped"@) {
        Some(t) => Some(t),
        None => match text_field(value, "terminal_title"@) {
            Some(t) => Some(t),
            None => text_field(value, "title"@),
        },
    }
}

/// Whether ` | ` starts at `i` in `t`.
pub open spec fn separator_at(t: Seq<char>, i: int) -> bool {
    0 <= i && i + 3 <= t.len() && t[i] == ' ' && t[i + 1] == '|' && t[i + 2] == ' '
}

/// The first index from `i` on where ` | ` starts.
pub open spec fn first_separator(t: Seq<char>, i: int) -> Option<int>
    decreases t.len() - i,
{
    if i < 0 || i + 3 > t.len() {
        None
    } else if separator_at(t, i) {
        Some(i)
    } else {
        first_separator(t, i + 1)
    }
}

/// The text after the first ` | `, or all of it.
pub open spec fn after_separator(t: Seq<char>) -> Seq<char> {
    match first_separator(t, 0) {
        Some(k) => t.skip(k + 3),
        None => t,
    }
}

/// `t` without its control characters.
pub open spec fn drop_controls(t: Seq<char>) -> Seq<char>
    decreases t.len(),
{
    if t.len() == 0 {
        seq![]
    } else if is_control(t.last()) {
        drop_controls(t.drop_last())
    } else {
        drop_controls(t.drop_last()).push(t.last())
    }
}

/// The session name in an agent's title: after ` | ` when the title has
/// one, without control characters, trimmed, and not empty.
pub open spec fn spec_session_name(value: Json) -> Option<Seq<char>> {
    match title_of(value) {
        None => None,
        Some(t) => {
            let name = trim(drop_controls(after_separator(t)));
            if name.len() == 0 {
                None
            } else {
                Some(name)
            }
        },
    }
}

/// Reads the session name in an agent's title.
pub fn parse_agent_session_name(value: &Json) -> (r: Option<String>)
    ensures
        opt_text(r) == spec_session_name(*value),
{
    let title = match text_member(value, "terminal_title_stripped") {
        Some(t) => t,
        None => match text_member(value, "terminal_title") {
            Some(t) => t,
            None => match text_member(value, "title") {
                Some(t) => t,
                None => {
                    return None;
                },
            },
        },
    };
    let t = chars_of(title.as_str());
    let mut k: usize = 0;
    while k < t.len() && t.len() - k >= 3 && !(t[k] == ' ' && t[k + 1] == '|' && t[k + 2] == ' ')
        invariant
            k <= t.len(),
            first_separator(t@, 0) == first_separator(t@, k as int),
        decreases t.len() - k,
    {
        k = k + 1;
    }
    let start: usize = if k < t.len() && t.len() - k >= 3 {
        k + 3
    } else {
        0
    };
    proof {
        if start == 0 {
            assert(first_separator(t@, k as int) is None);
            assert(t@.skip(0) =~= t@);
        }
    }
    let mut kept: Vec<char> = Vec::new();
    let mut i: usize = start;
    assert(t@.subrange(start as int, start as int) =~= Seq::<char>::empty());
    while i < t.len()
        invariant
            start <= i <= t.len(),
            kept@ == drop_controls(t@.subrange(start as int, i as int)),
        decreases t.len() - i,
    {
        let ghost next = t@.subrange(start as int, i + 1);
        assert(next.drop_last() =~= t@.subrange(start as int, i as int));
        assert(next.last() == t@[i as int]);
        if !crate::text::char_is_control(t[i]) {
            kept.push(t[i]);
        }
        i = i + 1;
    }
    assert(t@.subrange(start as int, t@.len() as int) =~= t@.skip(start as int));
    let name = trim_chars(&kept);
    if name.len() == 0 {
        None
    } else {
        Some(string_of(name.as_slice()))
    }
}

/// An agent pane by value.
pub struct AgentPaneView {
    pub workspace_id: Seq<char>,
    pub tab_id: Seq<char>,
    pub pane_id: Seq<char>,
    pub terminal_id: Option<Seq<char>>,
    pub instance_name: Option<Seq<char>>,
    pub cwd: Option<Seq<char>>,
    pub destination_cwd: Option<Seq<char>>,
    pub focused: bool,
    pub name: Seq<char>,
    pub session_name: Option<Seq<char>>,
    pub status: AgentStatus,
    pub timing_key: TimingKeyView,
    pub session_timing_key: Option<TimingKeyView>,
    pub state_change_seq: u64,
}

pub open spec fn pane_view(a: AgentPane) -> AgentPaneView {
    AgentPaneView {
        workspace_id: a.workspace_id@,
        tab_id: a.tab_id@,
        pane_id: a.pane_id@,
        terminal_id: opt_text(a.terminal_id),
        instance_name: opt_text(a.instance_name),
        cwd: opt_text(a.cwd),
        destination_cwd: opt_text(a.destination_cwd),
        focused: a.focused,
        name: a.runtime.name@,
        session_name: opt_text(a.runtime.session_name),
        status: a.runtime.status,
        timing_key: a.runtime.timing_key@,
        session_timing_key: match a.runtime.session_timing_key {
            Some(k) => Some(k@),
            None => None,
        },
        state_change_seq: a.runtime.state_change_seq,
    }
}

/// An agent of the snapshot with the pane it runs in; nothing when it has
/// no pane id or agent name, or its pane is not in the snapshot.
pub open spec fn spec_agent_pane(value: Json, snapshot: Json) -> Option<AgentPaneView> {
    match (text_field(value, "pane_id"@), text_field(value, "agent"@)) {
        (Some(pane_id), Some(name)) => {
            let panes = match items(field(snapshot, "panes"@)) {
                Some(p) => p,
                None => seq![],
            };
            match first_with_text(panes, "pane_id"@, pane_id) {
                None => None,
                Some(pane) => match (text_field(pane, "workspace_id"@), text_field(pane, "tab_id"@)) {
                    (Some(workspace_id), Some(tab_id)) => Some(
                        AgentPaneView {
                            workspace_id,
                            tab_id,
                            pane_id,
                            terminal_id: match text_field(value, "terminal_id"@) {
                                Some(t) => Some(t),
                                None => text_field(pane, "terminal_id"@),
                            },
                            instance_name: text_field(value, "name"@),
                            cwd: pane_cwd(pane),
                            destination_cwd: text_field(pane, "cwd"@),
                            focused: match flag(field(pane, "focused"@)) {
                                Some(b) => b,
                                None => false,
                            },
                            name,
                            session_name: spec_session_name(value),
                            status: spec_parse_agent_status(text_field(value, "agent_status"@)),
                            timing_key: match text_field(value, "terminal_id"@) {
                                Some(t) => TimingKeyView::Terminal(name + "@"@ + t),
                                None => TimingKeyView::Pane(name + "@"@ + pane_id),
                            },
                            session_timing_key: match spec_session_identity(value) {
                                Some(i) => Some(TimingKeyView::Session(i)),
                                None => None,
                            },
                            state_change_seq: match unsigned(field(value, "state_change_seq"@)) {
                                Some(n) => n,
                                None => 0,
                            },
                        },
                    ),
                    _ => None,
                },
            }
        },
        _ => None,
    }
}

fn joined_key(name: &String, id: &String) -> (r: String)
    ensures
        r@ == name@ + "@"@ + id@,
{
    let mut key = name.clone();
    append_str(&mut key, "@");
    append_str(&mut key, id.as_str());
    key
}

/// Reads an agent of the snapshot.
pub fn parse_agent_pane(value: &Json, snapshot: &Json) -> (r: Option<AgentPane>)
    ensures
        match spec_agent_pane(*value, *snapshot) {
            Some(v) => r matches Some(a) && pane_view(a) == v,
            None => r is None,
        },
{
    let pane_id = match text_member(value, "pane_id") {
        Some(p) => p,
        None => {
            return None;
        },
    };
    let name = match text_member(value, "agent") {
        Some(n) => n,
        None => {
            return None;
        },
    };
    let empty: Vec<Json> = Vec::new();
    let panes = match as_items(get(snapshot, "panes")) {
        Some(p) => p,
        None => &empty,
    };
    let pane = match find_with_text(panes, "pane_id", pane_id.as_str()) {
        Some(p) => p,
        None => {
            return None;
        },
    };
    let workspace_id = match text_member(pane, "workspace_id") {
        Some(w) => w,
        None => {
            return None;
        },
    };
    let tab_id = match text_member(pane, "tab_id") {
        Some(t) => t,
        None => {
            return None;
        },
    };
    let own_terminal = text_member(value, "terminal_id");
    let terminal_id = match &own_terminal {
        Some(t) => Some(t.clone()),
        None => text_member(pane, "terminal_id"),
    };
    let timing_key = match &own_terminal {
        Some(t) => AgentTimingKey::Terminal(joined_key(&name, t)),
        None => AgentTimingKey::Pane(joined_key(&name, &pane_id)),
    };
    let session_timing_key = match parse_agent_session_identity(value) {
        Some(i) => Some(AgentTimingKey::Session(i)),
        None => None,
    };
    let status_text = text_member(value, "agent_status");
    let status = match &status_text {
        Some(s) => parse_agent_status(Some(s.as_str())),
        None => parse_agent_status(None),
    };
    let focused = match as_flag(get(pane, "focused")) {
        Some(b) => b,
        None => false,
    };
    let state_change_seq = match as_unsigned(get(value, "state_change_seq")) {
        Some(n) => n,
        None => 0,
    };
    Some(
        AgentPane {
            workspace_id,
            tab_id,
            pane_id,
            terminal_id,
            instance_name: text_member(value, "name"),
            cwd: pane_cwd_of(pane),
            destination_cwd: text_member(pane, "cwd"),
            focused,
            runtime: AgentRuntime {
                name,
                session_name: parse_agent_session_name(value),
                status,
                timing_key,
                session_timing_key,
                state_change_seq,
            },
        },
    )
}

/// The `result.snapshot` member of a reply.
pub open spec fn snapshot_of(value: Json) -> Option<Json> {
    field_of(field(value, "result"@), "snapshot"@)
}

/// The first workspace from `i` on that cannot be read.
pub open spec fn first_bad_workspace(ws: Seq<Json>, snap: Json, i: int) -> Option<int>
    decreases ws.len() - i,
{
    if i < 0 || i >= ws.len() {
        None
    } else if spec_workspace(ws[i], snap) is None {
        Some(i)
    } else {
        first_bad_workspace(ws, snap, i + 1)
    }
}

/// The first agent from `i` on that cannot be read.
pub open spec fn first_bad_agent(agents: Seq<Json>, snap: Json, i: int) -> Option<int>
    decreases agents.len() - i,
{
    if i < 0 || i >= agents.len() {
        None
    } else if spec_agent_pane(agents[i], snap) is None {
        Some(i)
    } else {
        first_bad_agent(agents, snap, i + 1)
    }
}

pub open spec fn parsed_workspaces(ws: Seq<Json>, snap: Json) -> Seq<(WorkspaceView, Option<Seq<char>>)> {
    Seq::new(ws.len(), |i: int| spec_workspace(ws[i], snap).unwrap())
}

/// The workspaces with their parents assigned.
pub open spec fn with_parents(p: Seq<(WorkspaceView, Option<Seq<char>>)>) -> Seq<WorkspaceView> {
    Seq::new(p.len(), |i: int| WorkspaceView { parent_workspace_id: parent_of(p, i), ..p[i].0 })
}

/// The agents, each focused exactly when it is the focused pane, if the
/// snapshot names one.
pub open spec fn focus_agents(a: Seq<AgentPaneView>, focused: Option<Seq<char>>) -> Seq<AgentPaneView> {
    match focused {
        Some(f) => Seq::new(a.len(), |i: int| AgentPaneView { focused: a[i].pane_id == f, ..a[i] }),
        None => a,
    }
}

pub open spec fn malformed_message(what: Seq<char>, i: nat) -> Seq<char> {
    "Herdr snapshot "@ + what + " "@ + crate::text::decimal(i) + " is malformed"@
}

/// The agents of a snapshot, or why they cannot be read.
pub open spec fn spec_snapshot_agents(snap: Json) -> Result<Seq<AgentPaneView>, Seq<char>> {
    match field(snap, "agents"@) {
        None => Ok(seq![]),
        Some(a) => match items(Some(a)) {
            None => Err("Herdr snapshot agents are malformed"@),
            Some(list) => match first_bad_agent(list, snap, 0) {
                Some(i) => Err(malformed_message("agent"@, i as nat)),
                None => Ok(Seq::new(list.len(), |i: int| spec_agent_pane(list[i], snap).unwrap())),
            },
        },
    }
}

/// The workspaces and agents of a snapshot reply, or why it cannot be read.
pub open spec fn spec_snapshot(value: Json) -> Result<(Seq<WorkspaceView>, Seq<AgentPaneView>), Seq<char>> {
    match snapshot_of(value) {
        None => Err("Herdr returned an invalid session snapshot"@),
        Some(snap) => match items(field(snap, "workspaces"@)) {
            None => Err("Herdr snapshot has no workspaces"@),
            Some(ws) => match first_bad_workspace(ws, snap, 0) {
                Some(i) => Err(malformed_message("workspace"@, i as nat)),
                None => match spec_snapshot_agents(snap) {
                    Err(e) => Err(e),
                    Ok(agents) => Ok(
                        (
                            with_parents(parsed_workspaces(ws, snap)),
                            focus_agents(agents, text_field(snap, "focused_pane_id"@)),
                        ),
                    ),
                },
            },
        },
    }
}

fn malformed_error(what: &str, index: usize) -> (r: String)
    ensures
        r@ == malformed_message(what@, index as nat),
{
    let mut message = String::from_str("Herdr snapshot ");
    append_str(&mut message, what);
    append_str(&mut message, " ");
    let number = crate::text::u64_decimal(index as u64);
    append_str(&mut message, number.as_str());
    append_str(&mut message, " is malformed");
    message
}

fn parse_agents(snap: &Json) -> (r: Result<Vec<AgentPane>, String>)
    ensures
        match spec_snapshot_agents(*snap) {
            Ok(a) => r matches Ok(v) && v@.map_values(|x: AgentPane| pane_view(x)) == a,
            Err(e) => r matches Err(m) && m@ == e,
        },
{
    let found = get(snap, "agents");
    if found.is_none() {
        let empty: Vec<AgentPane> = Vec::new();
        assert(empty@.map_values(|x: AgentPane| pane_view(x)) =~= Seq::<AgentPaneView>::empty());
        return Ok(empty);
    }
    let list = match as_items(found) {
        Some(l) => l,
        None => {
            return Err(String::from_str("Herdr snapshot agents are malformed"));
        },
    };
    let mut agents: Vec<AgentPane> = Vec::new();
    let mut i: usize = 0;
    while i < list.len()
        invariant
            i <= list.len(),
            agents@.len() == i,
            forall|k: int| 0 <= k < i ==> pane_view(#[trigger] agents@[k]) == spec_agent_pane(list@[k], *snap).unwrap(),
            first_bad_agent(list@, *snap, 0) == first_bad_agent(list@, *snap, i as int),
            field(*snap, "agents"@) is Some,
            items(field(*snap, "agents"@)) == Some(list@),
        decreases list.len() - i,
    {
        match parse_agent_pane(&list[i], snap) {
            Some(a) => {
                agents.push(a);
            },
            None => {
                return Err(malformed_error("agent", i));
            },
        }
        i = i + 1;
    }
    assert(agents@.map_values(|x: AgentPane| pane_view(x)) =~= Seq::new(
        list@.len(),
        |k: int| spec_agent_pane(list@[k], *snap).unwrap(),
    ));
    Ok(agents)
}

/// Reads the workspaces and agents of a snapshot reply.
pub fn parse_snapshot(value: &Json) -> (r: Result<(Vec<HerdrWorkspace>, Vec<AgentPane>), String>)
    ensures
        match spec_snapshot(*value) {
            Ok((ws, agents)) => r matches Ok((w, a)) && w@.map_values(|x: HerdrWorkspace| workspace_view(x)) == ws
                && a@.map_values(|x: AgentPane| pane_view(x)) == agents,
            Err(e) => r matches Err(m) && m@ == e,
        },
{
    let snap = match get_of(get(value, "result"), "snapshot") {
        Some(s) => s,
        None => {
            return Err(String::from_str("Herdr returned an invalid session snapshot"));
        },
    };
    let list = match as_items(get(snap, "workspaces")) {
        Some(l) => l,
        None => {
            return Err(String::from_str("Herdr snapshot has no workspaces"));
        },
    };
    let mut parsed: Vec<ParsedWorkspace> = Vec::new();
    let mut i: usize = 0;
    while i < list.len()
        invariant
            i <= list.len(),
            parsed@.len() == i,
            forall|k: int| 0 <= k < i ==> parsed_view(#[trigger] parsed@[k]) == spec_workspace(list@[k], *snap).unwrap(),
            first_bad_workspace(list@, *snap, 0) == first_bad_workspace(list@, *snap, i as int),
            snapshot_of(*value) == Some(*snap),
            items(field(*snap, "workspaces"@)) == Some(list@),
        decreases list.len() - i,
    {
        match parse_workspace(&list[i], snap) {
            Some(p) => {
                parsed.push(p);
            },
            None => {
                return Err(malformed_error("workspace", i));
            },
        }
        i = i + 1;
    }
    let ghost views = parsed_workspaces(list@, *snap);
    assert(parsed@.map_values(|p: ParsedWorkspace| parsed_view(p)) =~= views);
    let mut agents = match parse_agents(snap) {
        Ok(a) => a,
        Err(m) => {
            return Err(m);
        },
    };
    assign_worktree_parents(&mut parsed);
    let ghost assigned = parsed@;
    let mut workspaces: Vec<HerdrWorkspace> = Vec::new();
    let mut k: usize = 0;
    let n = parsed.len();
    while k < n
        invariant
            k <= n,
            n == assigned.len(),
            n == views.len(),
            parsed@ == assigned.skip(k as int),
            workspaces@.len() == k,
            forall|j: int| 0 <= j < k ==> #[trigger] workspaces@[j] == assigned[j].workspace,
        decreases n - k,
    {
        let ghost before = parsed@;
        let entry = parsed.remove(0);
        assert(parsed@ =~= assigned.skip(k + 1));
        assert(entry == assigned[k as int]);
        workspaces.push(entry.workspace);
        k = k + 1;
    }
    proof {
        assert forall|j: int| 0 <= j < n implies #[trigger] workspace_view(workspaces@[j]) == with_parents(views)[j] by {
            assert(parsed_view(assigned[j]).0 == workspace_view(assigned[j].workspace));
        }
        assert(workspaces@.map_values(|x: HerdrWorkspace| workspace_view(x)) =~= with_parents(views));
    }
    match text_member(snap, "focused_pane_id") {
        Some(focused) => {
            let ghost unfocused = agents@;
            let mut j: usize = 0;
            while j < agents.len()
                invariant
                    j <= agents.len(),
                    agents@.len() == unfocused.len(),
                    forall|x: int| j <= x < agents@.len() ==> #[trigger] agents@[x] == unfocused[x],
                    forall|x: int|
                        0 <= x < j ==> #[trigger] pane_view(agents@[x]) == (AgentPaneView {
                            focused: unfocused[x].pane_id@ == focused@,
                            ..pane_view(unfocused[x])
                        }),
                decreases agents.len() - j,
            {
                let is_focused = str_eq(agents[j].pane_id.as_str(), focused.as_str());
                let mut agent = agents.remove(j);
                agent.focused = is_focused;
                agents.insert(j, agent);
                j = j + 1;
            }
            proof {
                let fv = unfocused.map_values(|x: AgentPane| pane_view(x));
                assert(agents@.map_values(|x: AgentPane| pane_view(x)) =~= focus_agents(fv, Some(focused@)));
            }
        },
        None => {},
    }
    Ok((workspaces, agents))
}

/// The workspace of the focused pane, found among the snapshot's panes.
pub open spec fn spec_derived_focused_workspace(value: Json) -> Option<Seq<char>> {
    match snapshot_of(value) {
        None => None,
        Some(snap) => match (text_field(snap, "focused_pane_id"@), items(field(snap, "panes"@))) {
            (Some(f), Some(panes)) => match first_with_text(panes, "pane_id"@, f) {
                Some(p) => text_field(p, "workspace_id"@),
                None => None,
            },
            _ => None,
        },
    }
}

/// Finds the workspace of the focused pane among the snapshot's panes.
pub fn derived_focused_workspace_id(value: &Json) -> (r: Option<String>)
    ensures
        opt_text(r) == spec_derived_focused_workspace(*value),
{
    let snap = match get_of(get(value, "result"), "snapshot") {
        Some(s) => s,
        None => {
            return None;
        },
    };
    let focused = match text_member(snap, "focused_pane_id") {
        Some(f) => f,
        None => {
            return None;
        },
    };
    let panes = match as_items(get(snap, "panes")) {
        Some(p) => p,
        None => {
            return None;
        },
    };
    match find_with_text(panes, "pane_id", focused.as_str()) {
        Some(p) => text_member(p, "workspace_id"),
        None => None,
    }
}

/// A read snapshot: its workspaces and agents, and the workspace in focus.
#[derive(Debug)]
pub struct SessionSnapshot {
    pub workspaces: Vec<HerdrWorkspace>,
    pub agents: Vec<AgentPane>,
    pub focused_workspace_id: Option<String>,
}

/// The workspace in focus: the one the snapshot names (nothing when that is
/// no string), else the focused pane's, else the only workspace.
pub open spec fn spec_focused_workspace(value: Json, ws: Seq<WorkspaceView>) -> Option<Seq<char>> {
    match field_of(snapshot_of(value), "focused_workspace_id"@) {
        Some(v) => text(Some(v)),
        None => match spec_derived_focused_workspace(value) {
            Some(w) => Some(w),
            None => if ws.len() == 1 {
                Some(ws[0].id)
            } else {
                None
            },
        },
    }
}

/// Reads a snapshot reply with the workspace in focus.
pub fn session_snapshot_with(value: &Json) -> (r: Result<SessionSnapshot, String>)
    ensures
        match spec_snapshot(*value) {
            Ok((ws, agents)) => r matches Ok(s) && s.workspaces@.map_values(|x: HerdrWorkspace| workspace_view(x))
                == ws && s.agents@.map_values(|x: AgentPane| pane_view(x)) == agents && opt_text(
                s.focused_workspace_id,
            ) == spec_focused_workspace(*value, ws),
            Err(e) => r matches Err(m) && m@ == e,
        },
{
    let (workspaces, agents) = match parse_snapshot(value) {
        Ok(found) => found,
        Err(m) => {
            return Err(m);
        },
    };
    let ghost ws = workspaces@.map_values(|x: HerdrWorkspace| workspace_view(x));
    let named = get_of(get_of(get(value, "result"), "snapshot"), "focused_workspace_id");
    let focused_workspace_id = match named {
        Some(v) => as_text(Some(v)),
        None => match derived_focused_workspace_id(value) {
            Some(w) => Some(w),
            None => if workspaces.len() == 1 {
                assert(ws[0] == workspace_view(workspaces@[0]));
                Some(workspaces[0].id.clone())
            } else {
                None
            },
        },
    };
    Ok(SessionSnapshot { workspaces, agents, focused_workspace_id })
}

} // verus!
