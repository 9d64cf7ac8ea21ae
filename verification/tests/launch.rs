use std::cell::RefCell;

use hunkle::agent::AgentStatus;
use hunkle::client::CommandError;
use hunkle::json::{Json, JsonNumber};
use hunkle::launch::{scheduler_label, scheduler_launch_with, scheduler_matching_workspace, SchedulerLaunchRequest};

fn json(text: &str) -> Json {
    convert(&serde_json::from_str(text).unwrap())
}

fn convert(value: &serde_json::Value) -> Json {
    match value {
        serde_json::Value::Null => Json::Null,
        serde_json::Value::Bool(b) => Json::Bool(*b),
        serde_json::Value::Number(n) => Json::Number(JsonNumber {
            unsigned: n.as_u64(),
            f32_bits: n
                .as_f64()
                .map(|f| f as f32)
                .filter(|f| f.is_finite())
                .map(f32::to_bits),
        }),
        serde_json::Value::String(s) => Json::String(s.clone()),
        serde_json::Value::Array(items) => Json::Array(items.iter().map(convert).collect()),
        serde_json::Value::Object(fields) => Json::Object(
            fields
                .iter()
                .map(|(key, value)| (key.clone(), convert(value)))
                .collect(),
        ),
    }
}

fn joined(args: &[String]) -> String {
    args.join("\0")
}

fn request(destination: &str, label: &str, prompt: &str, model: Option<&str>) -> SchedulerLaunchRequest {
    SchedulerLaunchRequest {
        run_id: 42,
        destination: destination.to_owned(),
        label: label.to_owned(),
        prompt: prompt.to_owned(),
        model: model.map(str::to_owned),
    }
}

#[test]
fn scheduler_launches_in_matching_workspace_with_literal_arguments() {
    let destination = "/tmp/literal path;$(untouched)";
    let prompt = "Review `literal`; echo $HOME\nwithout a shell";
    let calls = RefCell::new(Vec::new());
    let pauses = RefCell::new(Vec::new());
    let snapshot = format!(
        r#"{{
            "result": {{ "snapshot": {{
                "workspaces": [{{
                    "workspace_id": "w7",
                    "label": "Existing workspace",
                    "worktree": {{ "checkout_path": {} }}
                }}],
                "panes": [],
                "layouts": []
            }}}}
        }}"#,
        serde_json::Value::String(destination.to_owned())
    );
    let result = scheduler_launch_with(
        request(destination, "  Nightly\nreview  ", prompt, Some("openai/gpt-5.6-sol")),
        &|args: &Vec<String>| {
            calls.borrow_mut().push(args.clone());
            let count = calls.borrow().len();
            Ok(match count {
                1 => json(&snapshot),
                2 => json(
                    r#"{
                        "result": {
                            "type": "tab_created",
                            "tab": { "tab_id": "w7:t3" },
                            "root_pane": {
                                "pane_id": "w7:p9",
                                "terminal_id": "term_9"
                            }
                        }
                    }"#,
                ),
                3 => {
                    return Err(CommandError::unavailable(
                        "agent target pane w7:p9 is not an available shell".to_owned(),
                    ));
                }
                4 => json(
                    r#"{
                        "result": { "agent": {
                            "pane_id": "w7:p9",
                            "terminal_id": "term_9",
                            "agent_status": "idle"
                        }}
                    }"#,
                ),
                6 => json(
                    r#"{
                        "result": { "agent": {
                            "pane_id": "w7:p9",
                            "terminal_id": "term_9",
                            "agent_status": "working",
                            "agent_session": {
                                "source": "opencode",
                                "agent": "opencode",
                                "kind": "session_id",
                                "value": "ses_scheduler"
                            }
                        }}
                    }"#,
                ),
                5 => {
                    return Err(CommandError::unavailable(
                        "agent prompt produced no observed state change within 5000 ms".to_owned(),
                    ));
                }
                _ => panic!("unexpected scheduler command"),
            })
        },
        &|ms: u64| pauses.borrow_mut().push(ms),
    );

    assert_eq!(result.pane_id.as_deref(), Some("w7:p9"));
    assert_eq!(result.terminal_id.as_deref(), Some("term_9"));
    assert_eq!(result.session_id.as_deref(), Some("ses_scheduler"));
    assert!(matches!(result.status, Ok(AgentStatus::Working)));
    let calls = calls.into_inner();
    assert_eq!(
        joined(&calls[1]),
        "tab\0create\0--workspace\0w7\0--cwd\0/tmp/literal path;$(untouched)\0--label\0Nightly review\0--no-focus"
    );
    assert_eq!(
        joined(&calls[3]),
        "agent\0start\0hunkle-nightly-review-r42\0--kind\0opencode\0--pane\0w7:p9\0--timeout\030000\0--\0--model\0openai/gpt-5.6-sol"
    );
    assert_eq!(calls[2], calls[3]);
    assert_eq!(calls[4], calls[5]);
    assert_eq!(calls[5][3], prompt);
    assert_eq!(
        joined(&calls[5]),
        "agent\0prompt\0w7:p9\0Review `literal`; echo $HOME\nwithout a shell\0--wait\0--until\0working\0--until\0blocked\0--until\0idle\0--until\0done\0--timeout\010000"
    );
    assert_eq!(pauses.into_inner(), vec![100, 2000, 3000]);
}

#[test]
fn scheduler_opens_a_workspace_when_none_is_at_the_destination() {
    let calls = RefCell::new(Vec::new());
    let result = scheduler_launch_with(
        request("/srv/app", "", "go", None),
        &|args: &Vec<String>| {
            calls.borrow_mut().push(args.clone());
            let count = calls.borrow().len();
            Ok(match count {
                1 => json(r#"{"result": {"snapshot": {"workspaces": [], "panes": [], "layouts": []}}}"#),
                2 => json(r#"{"result": {"root_pane": {"pane_id": "w2:p1"}}}"#),
                3 => json(r#"{"result": {"agent": {"pane_id": "w2:p1", "terminal_id": "term_2"}}}"#),
                _ => json(r#"{"result": {"agent": {"pane_id": "w2:p1", "agent_status": "blocked"}}}"#),
            })
        },
        &|_: u64| {},
    );
    let calls = calls.into_inner();
    assert_eq!(
        joined(&calls[1]),
        "workspace\0create\0--cwd\0/srv/app\0--label\0hunkle-scheduled\0--no-focus"
    );
    assert_eq!(
        joined(&calls[2]),
        "agent\0start\0hunkle-scheduled-r42\0--kind\0opencode\0--pane\0w2:p1\0--timeout\030000"
    );
    assert_eq!(calls.len(), 4);
    assert_eq!(result.pane_id.as_deref(), Some("w2:p1"));
    assert_eq!(result.terminal_id.as_deref(), Some("term_2"));
    assert_eq!(result.session_id, None);
    assert!(matches!(result.status, Ok(AgentStatus::Blocked)));
}

#[test]
fn scheduler_reports_the_stage_that_failed() {
    let failed = scheduler_launch_with(
        request("/srv/app", "x", "go", None),
        &|_: &Vec<String>| Err(CommandError::unavailable("Herdr unavailable".to_owned())),
        &|_: u64| {},
    );
    assert_eq!(failed.pane_id, None);
    assert_eq!(failed.status.unwrap_err(), "workspace snapshot: Herdr unavailable");

    let creation = scheduler_launch_with(
        request("/srv/app", "x", "go", None),
        &|args: &Vec<String>| {
            if args[0] == "api" {
                Ok(json(r#"{"result": {"snapshot": {"workspaces": [], "panes": [], "layouts": []}}}"#))
            } else {
                Err(CommandError::unavailable("no room".to_owned()))
            }
        },
        &|_: u64| {},
    );
    assert_eq!(creation.status.unwrap_err(), "workspace creation: no room");

    let moved = scheduler_launch_with(
        request("/srv/app", "x", "go", None),
        &|args: &Vec<String>| {
            Ok(if args[0] == "api" {
                json(r#"{"result": {"snapshot": {"workspaces": [], "panes": [], "layouts": []}}}"#)
            } else if args[0] == "workspace" {
                json(r#"{"result": {"root_pane": {"pane_id": "w2:p1", "terminal_id": "term_1"}}}"#)
            } else {
                json(r#"{"result": {"agent": {"pane_id": "w2:p1", "terminal_id": "term_5"}}}"#)
            })
        },
        &|_: u64| {},
    );
    assert_eq!(moved.pane_id, None);
    assert_eq!(
        moved.status.unwrap_err(),
        "agent start: Herdr returned the agent in an unexpected terminal"
    );

    let prompt_failed = scheduler_launch_with(
        request("/srv/app", "x", "go", None),
        &|args: &Vec<String>| {
            if args[0] == "api" {
                Ok(json(r#"{"result": {"snapshot": {"workspaces": [], "panes": [], "layouts": []}}}"#))
            } else if args[0] == "workspace" {
                Ok(json(r#"{"result": {"root_pane": {"pane_id": "w2:p1"}}}"#))
            } else if args[1] == "start" {
                Ok(json(r#"{"result": {"agent": {"pane_id": "w2:p1"}}}"#))
            } else {
                Err(CommandError::unavailable("agent vanished".to_owned()))
            }
        },
        &|_: u64| {},
    );
    assert_eq!(prompt_failed.pane_id.as_deref(), Some("w2:p1"));
    assert_eq!(prompt_failed.terminal_id, None);
    assert_eq!(prompt_failed.status.unwrap_err(), "agent prompt: agent vanished");
}

#[test]
fn labels_collapse_whitespace_and_controls() {
    assert_eq!(scheduler_label("  Nightly\nreview  "), "Nightly review");
    assert_eq!(scheduler_label("a\u{7}b"), "a b");
    assert_eq!(scheduler_label(" \t "), "hunkle-scheduled");
    assert_eq!(scheduler_label(&"x".repeat(80)).chars().count(), 64);
}

#[test]
fn matching_workspaces_are_found_by_their_directory() {
    let value = json(
        r#"{"result": {"snapshot": {
            "workspaces": [
                {"workspace_id": "w1", "label": "One", "worktree": {"checkout_path": "/a"}},
                {"workspace_id": "w2", "label": "Two", "worktree": {"checkout_path": "/b"}}
            ],
            "panes": [],
            "layouts": []
        }}}"#,
    );
    assert_eq!(scheduler_matching_workspace(&value, "/b").unwrap().as_deref(), Some("w2"));
    assert_eq!(scheduler_matching_workspace(&value, "/c").unwrap(), None);
    assert!(scheduler_matching_workspace(&Json::Null, "/c")
        .unwrap_err()
        .starts_with("workspace snapshot: "));
}
