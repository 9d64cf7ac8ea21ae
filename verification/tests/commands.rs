use std::cell::RefCell;

use hunkle::agent::AgentStatus;
use hunkle::client::CommandError;
use hunkle::commands::{
    close_pane_with, create_tab_with_agent_with, focus_agent_pane, pane_layout, prompt_agent_with,
    replace_pane_with_agent_with, scheduler_observe_with, send_command_below_with, split_pane_with_agent,
    split_pane_with_agent_with, toggle_pane_zoom_with, SchedulerObserveResult,
};
use hunkle::json::{Json, JsonNumber};
use hunkle::prompt::AgentPaneDirection;

fn json(text: &str) -> Json {
    convert(&serde_json::from_str(text).unwrap())
}

fn convert(value: &serde_json::Value) -> Json {
    match value {
        serde_json::Value::Null => Json::Null,
        serde_json::Value::Bool(b) => Json::Bool(*b),
        serde_json::Value::Number(n) => Json::Number(JsonNumber {
            unsigned: n.as_u64(),
            f32_bits: n
                .as_f64()
                .map(|f| f as f32)
                .filter(|f| f.is_finite())
                .map(f32::to_bits),
        }),
        serde_json::Value::String(s) => Json::String(s.clone()),
        serde_json::Value::Array(items) => Json::Array(items.iter().map(convert).collect()),
        serde_json::Value::Object(fields) => Json::Object(
            fields
                .iter()
                .map(|(key, value)| (key.clone(), convert(value)))
                .collect(),
        ),
    }
}

fn words(items: &[&str]) -> Vec<String> {
    items.iter().map(|item| (*item).to_owned()).collect()
}

#[test]
fn prompts_an_agent_by_pane_id() {
    let calls = RefCell::new(Vec::new());
    prompt_agent_with(
        "w1:p2".to_owned(),
        "Check the failing test".to_owned(),
        &|args: &Vec<String>| {
            calls.borrow_mut().push(args.clone());
            Ok(json(r#"{ "result": {} }"#))
        },
    )
    .unwrap();

    assert_eq!(
        calls.into_inner(),
        vec![words(&["agent", "prompt", "w1:p2", "Check the failing test"])]
    );
}

#[test]
fn sends_to_an_existing_pane_below() {
    let calls = RefCell::new(Vec::new());
    let pane_id = send_command_below_with("cargo test --lib".to_owned(), &|args: &Vec<String>| {
        calls.borrow_mut().push(args.clone());
        Ok(if calls.borrow().len() == 1 {
            json(r#"{ "result": { "neighbor": { "neighbor_pane_id": "w1:p2" } } }"#)
        } else {
            Json::Null
        })
    })
    .unwrap();

    assert_eq!(pane_id, "w1:p2");
    assert_eq!(
        calls.into_inner(),
        vec![
            words(&["pane", "neighbor", "--direction", "down", "--current"]),
            words(&["pane", "run", "w1:p2", "cargo test --lib"]),
        ]
    );
}

#[test]
fn creates_a_pane_below_before_sending() {
    let calls = RefCell::new(Vec::new());
    let pane_id = send_command_below_with("review this".to_owned(), &|args: &Vec<String>| {
        calls.borrow_mut().push(args.clone());
        let count = calls.borrow().len();
        Ok(match count {
            1 => json(r#"{ "result": { "neighbor": {} } }"#),
            2 => json(r#"{ "result": { "pane": { "pane_id": "w1:p3" } } }"#),
            _ => json(r#"{ "result": {} }"#),
        })
    })
    .unwrap();

    assert_eq!(pane_id, "w1:p3");
    assert_eq!(
        calls.into_inner(),
        vec![
            words(&["pane", "neighbor", "--direction", "down", "--current"]),
            words(&["pane", "split", "--current", "--direction", "down", "--no-focus"]),
            words(&["pane", "run", "w1:p3", "review this"]),
        ]
    );
}

#[test]
fn sending_below_reports_a_split_without_a_pane() {
    let error = send_command_below_with("review this".to_owned(), &|args: &Vec<String>| {
        Ok(if args[1] == "neighbor" {
            json(r#"{ "result": { "neighbor": {} } }"#)
        } else {
            json(r#"{ "result": {} }"#)
        })
    })
    .unwrap_err();
    assert_eq!(error, "Herdr did not identify the new pane");
}

#[test]
fn replaces_a_focused_pane_with_a_resumed_opencode_agent() {
    let calls = RefCell::new(Vec::new());
    let pane_id = replace_pane_with_agent_with(
        "/tmp/feature".to_owned(),
        "w1".to_owned(),
        "w1:p2".to_owned(),
        Some("ses_123".to_owned()),
        &|args: &Vec<String>| {
            calls.borrow_mut().push(args.clone());
            let count = calls.borrow().len();
            Ok(match count {
                1 => json(r#"{ "result": { "pane": { "cwd": "/tmp/displaced" } } }"#),
                2 => json(r#"{ "result": { "pane": { "pane_id": "w1:p4" } } }"#),
                _ => Json::Null,
            })
        },
    )
    .unwrap();

    assert_eq!(pane_id, "w1:p4");
    assert_eq!(
        calls.into_inner(),
        vec![
            words(&["pane", "get", "w1:p2"]),
            words(&[
                "pane",
                "split",
                "w1:p2",
                "--direction",
                "right",
                "--cwd",
                "/tmp/feature",
                "--no-focus",
            ]),
            words(&["pane", "run", "w1:p4", "opencode --session ses_123"]),
            words(&["pane", "process-info", "--pane", "w1:p2"]),
            words(&[
                "pane",
                "move",
                "w1:p2",
                "--new-tab",
                "--workspace",
                "w1",
                "--label",
                "displaced",
                "--no-focus",
            ]),
        ]
    );
}

#[test]
fn splits_next_to_a_pane_and_resumes_an_opencode_agent() {
    let calls = RefCell::new(Vec::new());
    let pane_id = split_pane_with_agent_with(
        "/tmp/feature".to_owned(),
        "w1:p2".to_owned(),
        AgentPaneDirection::Up,
        Some("ses_123".to_owned()),
        &|args: &Vec<String>| {
            calls.borrow_mut().push(args.clone());
            Ok(if calls.borrow().len() == 1 {
                json(r#"{ "result": { "pane": { "pane_id": "w1:p4" } } }"#)
            } else {
                Json::Null
            })
        },
    )
    .unwrap();

    assert_eq!(pane_id, "w1:p4");
    assert_eq!(
        calls.into_inner(),
        vec![
            words(&[
                "pane",
                "split",
                "w1:p2",
                "--direction",
                "up",
                "--cwd",
                "/tmp/feature",
                "--no-focus",
            ]),
            words(&["pane", "run", "w1:p4", "opencode --session ses_123"]),
        ]
    );
}

#[test]
fn creates_a_background_agent_tab_without_focus() {
    let calls = RefCell::new(Vec::new());
    let pauses = RefCell::new(0);
    let pane_id = create_tab_with_agent_with(
        "/tmp/feature".to_owned(),
        "w1".to_owned(),
        Some("ses_123".to_owned()),
        &|args: &Vec<String>| {
            calls.borrow_mut().push(args.clone());
            let count = calls.borrow().len();
            match count {
                1 => Ok(json(r#"{ "result": { "root_pane": { "pane_id": "w1:p4" } } }"#)),
                2 => Err("agent target pane w1:p4 is not an available shell".to_owned()),
                _ => Ok(Json::Null),
            }
        },
        &|| *pauses.borrow_mut() += 1,
    )
    .unwrap();

    let start = words(&[
        "agent",
        "start",
        "hunkle-w1-p4",
        "--kind",
        "opencode",
        "--pane",
        "w1:p4",
        "--timeout",
        "30000",
        "--",
        "--session",
        "ses_123",
    ]);
    assert_eq!(pane_id, "w1:p4");
    assert_eq!(
        calls.into_inner(),
        vec![
            words(&[
                "tab",
                "create",
                "--workspace",
                "w1",
                "--cwd",
                "/tmp/feature",
                "--label",
                "feature",
                "--no-focus",
            ]),
            start.clone(),
            start,
        ]
    );
    assert_eq!(pauses.into_inner(), 1);
}

#[test]
fn a_background_agent_that_never_starts_closes_its_tab() {
    let calls = RefCell::new(Vec::new());
    let error = create_tab_with_agent_with(
        "/tmp/feature".to_owned(),
        "w1".to_owned(),
        None,
        &|args: &Vec<String>| {
            calls.borrow_mut().push(args.clone());
            if args[0] == "tab" {
                Ok(json(r#"{ "result": { "root_pane": { "pane_id": "w1:p4" } } }"#))
            } else if args[0] == "agent" {
                Err("agent failed".to_owned())
            } else {
                Ok(Json::Null)
            }
        },
        &|| {},
    )
    .unwrap_err();

    assert_eq!(error, "agent failed");
    let calls = calls.into_inner();
    assert_eq!(calls.len(), 3);
    assert_eq!(calls[2], words(&["pane", "close", "w1:p4"]));
}

#[test]
fn focuses_a_new_opencode_agent_pane() {
    let calls = RefCell::new(Vec::new());
    let pane_id = focus_agent_pane("w1:p4".to_owned(), &|method: &String, params: &Json| {
        let pane = match params {
            Json::Object(fields) if fields.len() == 1 && fields[0].0 == "pane_id" => match &fields[0].1 {
                Json::String(pane) => pane.clone(),
                _ => String::new(),
            },
            _ => String::new(),
        };
        calls.borrow_mut().push((method.clone(), pane));
        Ok(json(
            r#"{ "result": { "type": "pane_info", "pane": { "pane_id": "w1:p4" } } }"#,
        ))
    })
    .unwrap();

    assert_eq!(pane_id, "w1:p4");
    assert_eq!(
        calls.into_inner(),
        vec![("pane.focus".to_owned(), "w1:p4".to_owned())]
    );
}

#[test]
fn focusing_refuses_an_unexpected_pane() {
    let error = focus_agent_pane("w1:p4".to_owned(), &|_: &String, _: &Json| {
        Ok(json(
            r#"{ "result": { "type": "pane_info", "pane": { "pane_id": "w1:p5" } } }"#,
        ))
    })
    .unwrap_err();
    assert_eq!(error, "Herdr focused an unexpected pane while trying to focus the new agent");
}

#[test]
fn rejects_unsafe_opencode_session_ids_before_changing_the_layout() {
    let called = RefCell::new(false);
    let error = split_pane_with_agent_with(
        "/tmp/feature".to_owned(),
        "w1:p2".to_owned(),
        AgentPaneDirection::Up,
        Some("ses_123; rm -rf /".to_owned()),
        &|_: &Vec<String>| {
            *called.borrow_mut() = true;
            Ok(Json::Null)
        },
    )
    .unwrap_err();

    assert_eq!(error, "OpenCode reported an invalid session ID");
    assert!(!called.into_inner());
}

#[test]
fn agents_start_only_inside_herdr() {
    let error = split_pane_with_agent(
        false,
        "/tmp/feature".to_owned(),
        "w1:p2".to_owned(),
        AgentPaneDirection::Up,
        None,
        &|_: &Vec<String>| Ok(Json::Null),
        &|_: &String, _: &Json| Ok(Json::Null),
    )
    .unwrap_err();
    assert_eq!(error, "Agents can only be started inside Herdr");
    let error = pane_layout(false, "w1:p2".to_owned(), &|_: &Vec<String>| Ok(Json::Null)).unwrap_err();
    assert_eq!(error, "Pane layouts are only available inside Herdr");
}

#[test]
fn closes_a_stashed_agent_pane() {
    let calls = RefCell::new(Vec::new());
    close_pane_with("w1:p4".to_owned(), &|args: &Vec<String>| {
        calls.borrow_mut().push(args.clone());
        Ok(Json::Null)
    })
    .unwrap();

    assert_eq!(calls.into_inner(), vec![words(&["pane", "close", "w1:p4"])]);
}

#[test]
fn names_each_displaced_layout_from_its_pane_directory() {
    let calls = RefCell::new(Vec::new());
    replace_pane_with_agent_with(
        "/tmp/feature".to_owned(),
        "w1".to_owned(),
        "w1:p2".to_owned(),
        None,
        &|args: &Vec<String>| {
            calls.borrow_mut().push(args.clone());
            let count = calls.borrow().len();
            Ok(match count {
                1 => json(r#"{ "result": { "pane": { "cwd": "/home/spoon/code/hunkle" } } }"#),
                2 => json(r#"{ "result": { "pane": { "pane_id": "w1:p4" } } }"#),
                _ => Json::Null,
            })
        },
    )
    .unwrap();

    assert_eq!(
        calls.into_inner()[4],
        words(&[
            "pane",
            "move",
            "w1:p2",
            "--new-tab",
            "--workspace",
            "w1",
            "--label",
            "hunkle",
            "--no-focus",
        ])
    );
}

#[test]
fn closes_an_idle_shell_instead_of_parking_it() {
    let calls = RefCell::new(Vec::new());
    replace_pane_with_agent_with(
        "/tmp/feature".to_owned(),
        "w1".to_owned(),
        "w1:p2".to_owned(),
        None,
        &|args: &Vec<String>| {
            calls.borrow_mut().push(args.clone());
            let count = calls.borrow().len();
            Ok(match count {
                1 => json(r#"{ "result": { "pane": { "cwd": "/tmp/displaced" } } }"#),
                2 => json(r#"{ "result": { "pane": { "pane_id": "w1:p4" } } }"#),
                4 => json(
                    r#"{
                        "result": {
                            "process_info": {
                                "shell_pid": 42,
                                "foreground_processes": [{ "pid": 42, "name": "bash" }]
                            }
                        }
                    }"#,
                ),
                _ => Json::Null,
            })
        },
    )
    .unwrap();

    let calls = calls.into_inner();
    assert_eq!(calls[4], words(&["pane", "close", "w1:p2"]));
    assert!(calls
        .iter()
        .all(|call| !call.contains(&"--new-tab".to_owned())));
}

#[test]
fn leaves_the_focused_pane_in_place_when_agent_dispatch_fails() {
    let calls = RefCell::new(Vec::new());
    let error = replace_pane_with_agent_with(
        "/tmp/feature".to_owned(),
        "w1".to_owned(),
        "w1:p2".to_owned(),
        None,
        &|args: &Vec<String>| {
            calls.borrow_mut().push(args.clone());
            let count = calls.borrow().len();
            match count {
                1 => Ok(json(r#"{ "result": { "pane": { "cwd": "/tmp/displaced" } } }"#)),
                2 => Ok(json(r#"{ "result": { "pane": { "pane_id": "w1:p4" } } }"#)),
                3 => Err("agent failed".to_owned()),
                _ => Ok(Json::Null),
            }
        },
    )
    .unwrap_err();

    assert_eq!(error, "agent failed");
    assert_eq!(calls.into_inner()[3], words(&["pane", "close", "w1:p4"]));
}

#[test]
fn zoom_toggles_report_the_new_state() {
    let calls = RefCell::new(Vec::new());
    let zoomed = toggle_pane_zoom_with("w1:p1".to_owned(), &|args: &Vec<String>| {
        calls.borrow_mut().push(args.clone());
        Ok(json(r#"{ "result": { "zoom": { "zoomed": true } } }"#))
    })
    .unwrap();
    assert!(zoomed);
    assert_eq!(
        calls.into_inner(),
        vec![words(&["pane", "zoom", "--pane", "w1:p1", "--toggle"])]
    );
    let error = toggle_pane_zoom_with("w1:p1".to_owned(), &|_: &Vec<String>| Ok(json(r#"{ "result": {} }"#)))
        .unwrap_err();
    assert_eq!(error, "Herdr did not report the fullscreen state");
}

#[test]
fn scheduler_observes_status_without_scraping_the_terminal() {
    let calls = RefCell::new(Vec::new());
    let observed = scheduler_observe_with("w3:p4", None, &|args: &Vec<String>| {
        calls.borrow_mut().push(args.clone());
        Ok(json(
            r#"{
                "result": { "agent": {
                    "pane_id": "w3:p4",
                    "terminal_id": "term_4",
                    "agent_status": "blocked"
                }}
            }"#,
        ))
    });

    let SchedulerObserveResult::Observed(status) = observed else {
        panic!("expected an observation");
    };
    assert!(matches!(status, AgentStatus::Blocked));
    assert_eq!(calls.into_inner(), vec![words(&["agent", "get", "w3:p4"])]);
    let calls = RefCell::new(Vec::new());
    let moved = scheduler_observe_with("w3:p4", Some("term_4"), &|args: &Vec<String>| {
        calls.borrow_mut().push(args.clone());
        Ok(if args[0] == "api" {
            json(
                r#"{"result": {"snapshot": {
                    "workspaces": [{"workspace_id": "w3", "label": "Scheduled"}],
                    "agents": [{
                        "agent": "opencode",
                        "agent_status": "done",
                        "pane_id": "w3:p9",
                        "terminal_id": "term_4"
                    }],
                    "panes": [{
                        "pane_id": "w3:p9",
                        "tab_id": "w3:t2",
                        "workspace_id": "w3"
                    }],
                    "layouts": []
                }}}"#,
            )
        } else {
            json(
                r#"{"result": {"agent": {
                    "pane_id": "w3:p9",
                    "terminal_id": "term_4",
                    "agent_status": "done"
                }}}"#,
            )
        })
    });
    assert!(matches!(
        moved,
        SchedulerObserveResult::Observed(AgentStatus::Done)
    ));
    assert_eq!(calls.into_inner()[1][2], "w3:p9");
    let missing = scheduler_observe_with("w1:p2", None, &|_: &Vec<String>| {
        Err(CommandError {
            code: Some("agent_not_found".to_owned()),
            message: "agent target not found".to_owned(),
        })
    });
    assert!(matches!(missing, SchedulerObserveResult::Missing(_)));
}

#[test]
fn scheduler_reports_a_terminal_without_an_agent() {
    let missing = scheduler_observe_with("w3:p4", Some("term_9"), &|_: &Vec<String>| {
        Ok(json(
            r#"{"result": {"snapshot": {
                "workspaces": [{"workspace_id": "w3", "label": "Scheduled"}],
                "agents": [],
                "panes": [],
                "layouts": []
            }}}"#,
        ))
    });
    let SchedulerObserveResult::Missing(message) = missing else {
        panic!("expected a missing agent");
    };
    assert_eq!(message, "agent terminal term_9 not found");
}
