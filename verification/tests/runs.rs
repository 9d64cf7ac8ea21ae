use hunkle::runs::{claim_step, ClaimObstacle, ClaimStep};
use std::cell::RefCell;

use hunkle::agent::AgentStatus;
use hunkle::commands::SchedulerObserveResult;
use hunkle::launch::SchedulerLaunchResult;
use hunkle::runs::{
    claim_label, claim_model, claim_schedule, deliver_run, delivery_failed, fetch_scheduled_result, launch_record,
    observation_update, project_gate, refresh_step, saturating_difference, Delivery, ObservationUpdate, ProjectGate,
    RefreshStep,
};
use hunkle::scheduler::ScheduledRunStatus;

#[test]
fn a_due_task_runs_at_its_latest_slot() {
    assert_eq!(claim_schedule(false, 1_000_000, 150_000, 5), Ok((750_000, Some(1_050_000))));
    assert_eq!(claim_schedule(false, 1_000_000, 100_000, 5), Ok((1_000_000, Some(1_300_000))));
    assert_eq!(claim_schedule(false, 0, 100, 5), Ok((100, Some(300_100))));
}

#[test]
fn a_requested_task_runs_now_and_keeps_its_schedule() {
    assert_eq!(claim_schedule(true, 42, 1_000_000, 5), Ok((42, None)));
}

#[test]
fn stored_intervals_must_be_positive_and_fit() {
    let refused = Err("stored schedule interval must be positive".to_owned());
    assert_eq!(claim_schedule(false, 10, 0, 0), refused);
    assert_eq!(claim_schedule(false, 10, 0, -1), refused);
    assert_eq!(claim_schedule(true, 10, 0, i64::MAX), refused);
    assert_eq!(
        claim_schedule(false, i64::MAX, i64::MAX, 1),
        Err("schedule overflowed".to_owned())
    );
}

#[test]
fn differences_saturate_at_the_bounds() {
    assert_eq!(saturating_difference(i64::MAX, i64::MIN), i64::MAX);
    assert_eq!(saturating_difference(i64::MIN, 1), i64::MIN);
    assert_eq!(saturating_difference(5, 7), -2);
}

#[test]
fn blank_models_are_dropped() {
    assert_eq!(claim_model(" \t".to_owned()), None);
    assert_eq!(claim_model("openai/gpt".to_owned()).as_deref(), Some("openai/gpt"));
}

#[test]
fn run_labels_name_the_task() {
    assert_eq!(claim_label("Nightly review", 8), "Hunkle: Nightly review #8");
    assert_eq!(claim_label("x", -3), "Hunkle: x #-3");
}

#[test]
fn project_tasks_run_only_with_their_approved_content() {
    let approved: &[u8] = b"prompt";
    assert!(matches!(project_gate(false, None, None), ProjectGate::RequiresApproval));
    assert!(matches!(
        project_gate(true, Some(approved), Some(Ok(b"prompt".to_vec()))),
        ProjectGate::RequiresApproval
    ));
    assert!(matches!(project_gate(false, Some(approved), None), ProjectGate::Unavailable));
    assert!(matches!(project_gate(false, Some(approved), Some(Err(()))), ProjectGate::Missing));
    assert!(matches!(
        project_gate(false, Some(approved), Some(Ok(b"prompt".to_vec()))),
        ProjectGate::Approved
    ));
    let changed = project_gate(false, Some(approved), Some(Ok(b"other".to_vec())));
    assert_eq!(changed.message(), Some("project task changed and requires approval"));
    let ProjectGate::Changed(content) = changed else {
        panic!("expected a changed task");
    };
    assert_eq!(content, b"other".to_vec());
    assert_eq!(ProjectGate::Missing.message(), Some("project task source is missing"));
    assert_eq!(ProjectGate::Approved.message(), None);
}

fn launched(
    pane: Option<&str>,
    session: Option<&str>,
    status: Result<AgentStatus, &str>,
) -> SchedulerLaunchResult {
    SchedulerLaunchResult {
        pane_id: pane.map(str::to_owned),
        terminal_id: None,
        session_id: session.map(str::to_owned),
        status: status.map_err(str::to_owned),
    }
}

#[test]
fn launches_record_the_agent_status_or_the_failure() {
    assert_eq!(
        launch_record(&launched(Some("w1:p1"), Some("ses"), Ok(AgentStatus::Working))),
        (ScheduledRunStatus::Working, None)
    );
    assert_eq!(
        launch_record(&launched(Some("w1:p1"), Some("ses"), Ok(AgentStatus::Done))),
        (ScheduledRunStatus::Completed, None)
    );
    assert_eq!(
        launch_record(&launched(Some("w1:p1"), None, Ok(AgentStatus::Idle))),
        (
            ScheduledRunStatus::Unknown,
            Some("OpenCode did not report a session after accepting the prompt".to_owned())
        )
    );
    assert_eq!(
        launch_record(&launched(Some("w1:p1"), None, Err("agent prompt: gone"))),
        (ScheduledRunStatus::Unknown, Some("agent prompt: gone".to_owned()))
    );
    assert_eq!(
        launch_record(&launched(None, None, Err("workspace snapshot: down"))),
        (ScheduledRunStatus::Failed, Some("workspace snapshot: down".to_owned()))
    );
}

#[test]
fn settled_agents_wait_for_their_session_then_fail() {
    let waiting = refresh_step(false, SchedulerObserveResult::Observed(AgentStatus::Done), 10_000, 0);
    let RefreshStep::Apply(SchedulerObserveResult::Unavailable(note)) = waiting else {
        panic!("expected to wait");
    };
    assert_eq!(note, "Waiting for OpenCode to report this run's session");
    let failed = refresh_step(false, SchedulerObserveResult::Observed(AgentStatus::Idle), 30_000, 0);
    let RefreshStep::Fail(error) = failed else {
        panic!("expected a failure");
    };
    assert_eq!(
        error,
        "OpenCode did not report a session within 30 seconds of accepting the prompt"
    );
    assert!(matches!(
        refresh_step(true, SchedulerObserveResult::Observed(AgentStatus::Done), 30_000, 0),
        RefreshStep::Apply(SchedulerObserveResult::Observed(AgentStatus::Done))
    ));
    assert!(matches!(
        refresh_step(false, SchedulerObserveResult::Observed(AgentStatus::Working), 90_000, 0),
        RefreshStep::Apply(SchedulerObserveResult::Observed(AgentStatus::Working))
    ));
}

#[test]
fn observations_keep_only_a_failed_delivery() {
    let delivery = "Discord delivery failed: timeout".to_owned();
    let ObservationUpdate::Record(status, error) = observation_update(
        SchedulerObserveResult::Observed(AgentStatus::Done),
        Some(delivery.clone()),
    ) else {
        panic!("expected a record");
    };
    assert_eq!(status, ScheduledRunStatus::Completed);
    assert_eq!(error, Some(delivery));
    let ObservationUpdate::Record(status, error) = observation_update(
        SchedulerObserveResult::Observed(AgentStatus::Blocked),
        Some("agent prompt: gone".to_owned()),
    ) else {
        panic!("expected a record");
    };
    assert_eq!(status, ScheduledRunStatus::Blocked);
    assert_eq!(error, None);
    let ObservationUpdate::Record(status, error) = observation_update(
        SchedulerObserveResult::Unavailable("Herdr is busy".to_owned()),
        None,
    ) else {
        panic!("expected a record");
    };
    assert_eq!(status, ScheduledRunStatus::Unknown);
    assert_eq!(error.as_deref(), Some("Herdr is busy"));
    assert!(matches!(
        observation_update(SchedulerObserveResult::Missing("agent target not found".to_owned()), None),
        ObservationUpdate::Fail(message) if message == "agent target not found"
    ));
    assert!(delivery_failed(Some("Discord delivery failed: x")));
    assert!(!delivery_failed(Some("Discord")));
    assert!(!delivery_failed(None));
}

#[test]
fn results_are_fetched_until_one_arrives() {
    let calls = RefCell::new(0);
    let pauses = RefCell::new(Vec::new());
    let result = fetch_scheduled_result(
        "ses_1",
        &|session: &str| {
            assert_eq!(session, "ses_1");
            *calls.borrow_mut() += 1;
            if *calls.borrow() < 4 {
                Err("not yet".to_owned())
            } else {
                Ok("done".to_owned())
            }
        },
        &|ms: u64| pauses.borrow_mut().push(ms),
    );
    assert_eq!(result, Ok("done".to_owned()));
    assert_eq!(calls.into_inner(), 4);
    assert_eq!(pauses.into_inner(), vec![250, 250, 250]);

    let calls = RefCell::new(0);
    let result = fetch_scheduled_result(
        "ses_1",
        &|_: &str| {
            *calls.borrow_mut() += 1;
            Err("OpenCode session has no assistant response".to_owned())
        },
        &|_: u64| {},
    );
    assert_eq!(result, Err("OpenCode session has no assistant response".to_owned()));
    assert_eq!(calls.into_inner(), 20);
}

#[test]
fn a_delivered_result_is_not_posted_again() {
    let posts = RefCell::new(Vec::new());
    let publish = |title: &str, output: &str| {
        posts.borrow_mut().push((title.to_owned(), output.to_owned()));
        Ok(())
    };
    let fetch = |_: &str| Ok("fresh".to_owned());
    let first = deliver_run("Nightly", Some("ses"), "", None, &fetch, &publish);
    assert!(matches!(first, Delivery::Sent(ref output) if output == "fresh"));
    let again = deliver_run("Nightly", Some("ses"), "fresh", None, &fetch, &publish);
    assert!(matches!(again, Delivery::Delivered));
    assert_eq!(posts.into_inner(), vec![("Nightly".to_owned(), "fresh".to_owned())]);
}

#[test]
fn failed_deliveries_are_recorded_and_retried_with_the_stored_output() {
    let failing = |_: &str, _: &str| Err("timeout".to_owned());
    let fetch = |_: &str| Ok("answer".to_owned());
    let Delivery::Failed(output, error) = deliver_run("T", Some("ses"), "", None, &fetch, &failing) else {
        panic!("expected a failed delivery");
    };
    assert_eq!(output.as_deref(), Some("answer"));
    assert_eq!(error, "Discord delivery failed: timeout");

    let posts = RefCell::new(Vec::new());
    let publish = |_: &str, output: &str| {
        posts.borrow_mut().push(output.to_owned());
        Ok(())
    };
    let unused = |_: &str| -> Result<String, String> { panic!("the stored output is posted") };
    let retried = deliver_run("T", None, "answer", Some(&error), &unused, &publish);
    assert!(matches!(retried, Delivery::Sent(ref output) if output == "answer"));
    assert_eq!(*posts.borrow(), vec!["answer".to_owned()]);

    let Delivery::Failed(output, error) = deliver_run("T", None, "", None, &fetch, &publish) else {
        panic!("expected a failed delivery");
    };
    assert_eq!(output, None);
    assert_eq!(error, "Discord delivery failed: OpenCode session is unavailable");
    let missing = |_: &str| Err("no answer".to_owned());
    let Delivery::Failed(output, error) = deliver_run("T", Some("ses"), "", None, &missing, &publish) else {
        panic!("expected a failed delivery");
    };
    assert_eq!(output, None);
    assert_eq!(error, "Discord delivery failed: no answer");
}

#[test]
fn claims_refuse_tasks_asked_for_by_hand_and_pass_over_due_ones() {
    assert!(matches!(claim_step(false, ClaimObstacle::ActiveRun), ClaimStep::NextTask));
    match claim_step(true, ClaimObstacle::ActiveRun) {
        ClaimStep::Fail { message, commit } => {
            assert_eq!(message, "scheduled task already has an active run");
            assert!(!commit);
        }
        other => panic!("unexpected {other:?}"),
    }
    match claim_step(true, ClaimObstacle::AlreadyClaimed) {
        ClaimStep::Fail { message, commit } => {
            assert_eq!(message, "scheduled run was already claimed");
            assert!(!commit);
        }
        other => panic!("unexpected {other:?}"),
    }
    match claim_step(true, ClaimObstacle::Unavailable("project task requires approval".to_owned())) {
        ClaimStep::Fail { message, commit } => {
            assert_eq!(message, "project task requires approval");
            assert!(commit);
        }
        other => panic!("unexpected {other:?}"),
    }
}
