use hunkle::agent::{AgentStatus, AgentTimingKey};
use hunkle::client::{AgentStatusEvent, Event};
use hunkle::json::{Json, JsonNumber};
use hunkle::layout::{LayoutDirection, LiveLayoutNode};
use hunkle::replies::{
    command_error, decode_response, exported_layout, pane_is_idle_shell, pane_layout_reply, parse_event,
    scheduler_agent_status, zoom_state,
};
use hunkle::snapshot::{derived_focused_workspace_id, parse_snapshot, session_snapshot_with};

fn json(text: &str) -> Json {
    convert(&serde_json::from_str(text).unwrap())
}

fn convert(value: &serde_json::Value) -> Json {
    match value {
        serde_json::Value::Null => Json::Null,
        serde_json::Value::Bool(b) => Json::Bool(*b),
        serde_json::Value::Number(n) => Json::Number(JsonNumber {
            unsigned: n.as_u64(),
            f32_bits: n
                .as_f64()
                .map(|f| f as f32)
                .filter(|f| f.is_finite())
                .map(f32::to_bits),
        }),
        serde_json::Value::String(s) => Json::String(s.clone()),
        serde_json::Value::Array(items) => Json::Array(items.iter().map(convert).collect()),
        serde_json::Value::Object(fields) => Json::Object(
            fields
                .iter()
                .map(|(key, value)| (key.clone(), convert(value)))
                .collect(),
        ),
    }
}

#[test]
fn parses_agent_status_events() {
    assert_eq!(
        parse_event(&json(
            r#"{"event": "pane_agent_status_changed",
                "data": {"workspace_id": "w2", "pane_id": "w2:p3", "agent_status": "blocked"}}"#
        )),
        Some(Event::AgentStatus(AgentStatusEvent {
            workspace_id: "w2".to_owned(),
            pane_id: "w2:p3".to_owned(),
            status: AgentStatus::Blocked,
        }))
    );
    assert_eq!(
        parse_event(&json(
            r#"{"event": "pane_closed", "data": {"workspace_id": "w2", "pane_id": "w2:p3"}}"#
        )),
        None
    );
}

#[test]
fn reads_a_pane_layout() {
    let layout = pane_layout_reply(&json(
        r#"{"result": {"layout": {
            "area": {"x": 4, "y": 1, "width": 120, "height": 40},
            "panes": [
                {"pane_id": "w2:p1", "rect": {"x": 4, "y": 1, "width": 72, "height": 40}},
                {"pane_id": "w2:p3", "rect": {"x": 76, "y": 1, "width": 48, "height": 40}}
            ],
            "tab_id": "w2:t4",
            "workspace_id": "w2"
        }}}"#,
    ))
    .unwrap();

    assert_eq!(layout.workspace_id, "w2");
    assert_eq!((layout.width, layout.height), (120, 40));
    assert_eq!(layout.panes.len(), 2);
    assert_eq!(layout.panes[1].pane_id, "w2:p3");
    assert_eq!((layout.panes[1].x, layout.panes[1].width), (76, 48));
}

#[test]
fn pane_layouts_refuse_empty_or_malformed_areas() {
    assert_eq!(
        pane_layout_reply(&json(r#"{"result": {}}"#)).unwrap_err(),
        "Herdr did not return the tab layout"
    );
    assert_eq!(
        pane_layout_reply(&json(
            r#"{"result": {"layout": {"area": {"x": 0, "y": 0, "width": 0, "height": 4}, "panes": [], "workspace_id": "w"}}}"#
        ))
        .unwrap_err(),
        "Herdr returned an empty tab layout"
    );
    assert_eq!(
        pane_layout_reply(&json(
            r#"{"result": {"layout": {"area": {"x": 0, "y": 0, "width": 70000, "height": 4}, "panes": [], "workspace_id": "w"}}}"#
        ))
        .unwrap_err(),
        "Herdr layout has an invalid width"
    );
    assert_eq!(
        pane_layout_reply(&json(
            r#"{"result": {"layout": {"area": {"x": 0, "y": 0, "width": 5, "height": 4}, "panes": [{"pane_id": "p"}], "workspace_id": "w"}}}"#
        ))
        .unwrap_err(),
        "Herdr pane is missing its rectangle"
    );
}

#[test]
fn toggles_hunkle_pane_zoom_and_reads_the_result() {
    assert_eq!(zoom_state(&json(r#"{"result": {"zoom": {"zoomed": true}}}"#)), Ok(true));
    assert_eq!(
        zoom_state(&json(r#"{"result": {}}"#)),
        Err("Herdr did not report the fullscreen state".to_owned())
    );
}

const SNAPSHOT: &str = r#"{
    "result": { "snapshot": {
        "focused_workspace_id": "child",
        "focused_pane_id": "pane-3",
        "workspaces": [
            {
                "workspace_id": "parent",
                "label": "Parent",
                "pane_count": 1,
                "agent_status": "working",
                "worktree": {
                    "checkout_path": "/repos/project",
                    "repo_key": "project.git",
                    "repo_root": "/repos/project",
                    "is_linked_worktree": false
                }
            },
            {
                "workspace_id": "child",
                "label": "Child",
                "pane_count": 1,
                "agent_status": "idle",
                "worktree": {
                    "checkout_path": "/worktrees/feature",
                    "repo_key": "project.git",
                    "repo_root": "/different/root",
                    "is_linked_worktree": true
                }
            },
            {
                "workspace_id": "pane-path",
                "label": "Pane path",
                "active_tab_id": "tab-3",
                "pane_count": 1,
                "agent_status": "done"
            }
        ],
        "agents": [{
            "agent": "opencode",
            "agent_session": {
                "source": "herdr:opencode",
                "agent": "opencode",
                "kind": "id",
                "value": "ses_timer"
            },
            "agent_status": "blocked",
            "state_change_seq": 17,
            "terminal_title_stripped": "OC | Refine workspace timers",
            "terminal_id": "term-3",
            "focused": false,
            "pane_id": "pane-3",
            "tab_id": "stale-tab",
            "workspace_id": "stale-workspace"
        }],
        "panes": [{
            "pane_id": "pane-3",
            "tab_id": "tab-3",
            "workspace_id": "pane-path",
            "cwd": "/fallback",
            "foreground_cwd": "/foreground"
        }],
        "layouts": []
    }}
}"#;

#[test]
fn parses_paths_statuses_and_repo_key_parent_fallback() {
    let value = json(SNAPSHOT);

    let (workspaces, agents) = parse_snapshot(&value).unwrap();
    assert_eq!(
        session_snapshot_with(&value)
            .unwrap()
            .focused_workspace_id
            .as_deref(),
        Some("child")
    );
    assert_eq!(
        derived_focused_workspace_id(&value).as_deref(),
        Some("pane-path")
    );
    assert_eq!(workspaces[1].parent_workspace_id.as_deref(), Some("parent"));
    assert_eq!(workspaces[2].path.as_deref(), Some("/foreground"));
    assert_eq!(agents[0].runtime.status, AgentStatus::Blocked);
    assert_eq!(agents[0].workspace_id, "pane-path");
    assert_eq!(agents[0].tab_id, "tab-3");
    assert_eq!(agents[0].terminal_id.as_deref(), Some("term-3"));
    assert!(agents[0].focused);
    assert_eq!(agents[0].runtime.state_change_seq, 17);
    assert!(matches!(
        &agents[0].runtime.timing_key,
        AgentTimingKey::Terminal(identity) if identity == "opencode@term-3"
    ));
    assert!(matches!(
        &agents[0].runtime.session_timing_key,
        Some(AgentTimingKey::Session(session)) if session.value == "ses_timer"
    ));
    assert_eq!(
        agents[0].runtime.session_name.as_deref(),
        Some("Refine workspace timers")
    );
}

#[test]
fn preserves_an_authoritative_unfocused_workspace() {
    let snapshot = session_snapshot_with(&json(
        r#"{"result": {"snapshot": {
            "focused_workspace_id": null,
            "workspaces": [{"workspace_id": "w1", "label": "Only"}],
            "agents": [],
            "panes": []
        }}}"#,
    ))
    .unwrap();

    assert_eq!(snapshot.focused_workspace_id, None);
}

#[test]
fn the_only_workspace_is_in_focus_when_the_snapshot_names_none() {
    let snapshot = session_snapshot_with(&json(
        r#"{"result": {"snapshot": {"workspaces": [{"workspace_id": "w1", "label": "Only"}]}}}"#,
    ))
    .unwrap();
    assert_eq!(snapshot.focused_workspace_id.as_deref(), Some("w1"));
    assert!(snapshot.agents.is_empty());
}

#[test]
fn rejects_partial_snapshots_instead_of_dropping_records() {
    let value = json(
        r#"{"result": {"snapshot": {
            "workspaces": [
                {"workspace_id": "valid", "label": "Valid"},
                {"workspace_id": "missing-label"}
            ],
            "agents": []
        }}}"#,
    );

    assert_eq!(
        parse_snapshot(&value).unwrap_err(),
        "Herdr snapshot workspace 1 is malformed"
    );
    assert_eq!(
        parse_snapshot(&json(r#"{"result": {"snapshot": {"workspaces": [], "agents": [{"agent": "x"}]}}}"#))
            .unwrap_err(),
        "Herdr snapshot agent 0 is malformed"
    );
    assert_eq!(
        parse_snapshot(&json(r#"{"result": {"snapshot": {"workspaces": [], "agents": 3}}}"#)).unwrap_err(),
        "Herdr snapshot agents are malformed"
    );
    assert_eq!(
        parse_snapshot(&json(r#"{"result": {}}"#)).unwrap_err(),
        "Herdr returned an invalid session snapshot"
    );
    assert_eq!(
        parse_snapshot(&json(r#"{"result": {"snapshot": {}}}"#)).unwrap_err(),
        "Herdr snapshot has no workspaces"
    );
}

#[test]
fn accepts_an_empty_success_response() {
    assert!(matches!(decode_response(None, None, b"", true), Ok(Json::Null)));
}

#[test]
fn preserves_structured_command_errors_from_stderr() {
    let stderr = br#"{"error":{"code":"agent_not_found","message":"agent target not found"}}"#;
    let error = decode_response(
        None,
        Some(json(std::str::from_utf8(stderr).unwrap())),
        stderr,
        false,
    )
    .err()
    .unwrap();
    assert_eq!(error.code.as_deref(), Some("agent_not_found"));
    assert_eq!(error.message, "agent target not found");
}

#[test]
fn command_failures_report_their_first_stderr_line() {
    let error = decode_response(None, None, b"\n  boom  \nlater", false).err().unwrap();
    assert_eq!(error.code, None);
    assert_eq!(error.message, "boom");
    let unreadable = decode_response(Some(Err("eof".to_owned())), None, b"", true)
        .err()
        .unwrap();
    assert_eq!(unreadable.message, "Could not read Herdr response: eof");
    let refused = decode_response(Some(Ok(json(r#"{"ok": true}"#))), None, b"", false)
        .err()
        .unwrap();
    assert_eq!(refused.message, "Herdr command failed");
    let fallback = command_error(&json(r#"{"code": 4}"#));
    assert_eq!(fallback.code, None);
    assert_eq!(fallback.message, "Herdr command failed");
}

#[test]
fn reads_exported_layouts_and_refuses_invalid_nodes() {
    let layout = exported_layout(&json(
        r#"{"result": {"layout": {
            "workspace_id": "w1", "tab_id": "w1:t1", "zoomed": false, "focused_pane_id": "w1:p1",
            "root": {"type": "split", "direction": "right", "ratio": 0.6,
                     "first": {"type": "pane", "pane_id": "w1:p1"},
                     "second": {"type": "pane", "pane_id": "w1:p2"}}
        }}}"#,
    ))
    .unwrap();
    assert_eq!(layout.tab_id, "w1:t1");
    assert_eq!(
        layout.root,
        LiveLayoutNode::Split {
            direction: LayoutDirection::Right,
            ratio_bits: 0.6f32.to_bits(),
            first: Box::new(LiveLayoutNode::Pane("w1:p1".to_owned())),
            second: Box::new(LiveLayoutNode::Pane("w1:p2".to_owned())),
        }
    );
    let invalid = exported_layout(&json(
        r#"{"result": {"layout": {
            "workspace_id": "w1", "tab_id": "w1:t1", "zoomed": false, "focused_pane_id": "w1:p1",
            "root": {"type": "split", "direction": "up", "ratio": 0.6}
        }}}"#,
    ));
    assert_eq!(invalid.err().unwrap(), "Herdr layout has an invalid split direction");
    let missing = exported_layout(&json(r#"{"result": {"layout": {"workspace_id": "w1"}}}"#));
    assert_eq!(missing.err().unwrap(), "Herdr layout is missing tab_id");
}

#[test]
fn scheduler_replies_name_the_agent_of_the_expected_pane() {
    let reply = json(r#"{"result": {"agent": {"pane_id": "w1:p2", "agent_status": "working"}}}"#);
    assert_eq!(scheduler_agent_status(&reply, "w1:p2"), Ok(AgentStatus::Working));
    assert_eq!(
        scheduler_agent_status(&reply, "w1:p3"),
        Err("Herdr returned an agent in an unexpected pane".to_owned())
    );
    assert_eq!(
        scheduler_agent_status(&json(r#"{"result": {}}"#), "w1:p2"),
        Err("Herdr returned no agent".to_owned())
    );
}

#[test]
fn a_pane_is_an_idle_shell_when_only_its_shell_runs() {
    assert!(pane_is_idle_shell(&json(
        r#"{"result": {"process_info": {"shell_pid": 42, "foreground_processes": [{"pid": 42}]}}}"#
    )));
    assert!(!pane_is_idle_shell(&json(
        r#"{"result": {"process_info": {"shell_pid": 42, "foreground_processes": [{"pid": 42}, {"pid": 7}]}}}"#
    )));
    assert!(!pane_is_idle_shell(&json(r#"{"result": {}}"#)));
}
