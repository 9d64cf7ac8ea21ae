use hunkle::agent::AgentStatus;
use hunkle::client::{
    environment_from, scheduler_run_agent_name, AgentStatusEvent, Event, EventCoalescer,
};

#[test]
fn discards_replayed_events_before_forwarding_live_events() {
    let mut events = EventCoalescer::new();
    let event = || {
        Event::AgentStatus(AgentStatusEvent {
            workspace_id: "w1".to_owned(),
            pane_id: "w1:p1".to_owned(),
            status: AgentStatus::Working,
        })
    };

    assert_eq!(events.observe(event()), None);
    events.finish_replay();
    assert_eq!(events.observe(event()), Some(event()));
}

#[test]
fn detects_environment() {
    assert!(environment_from(
        Some("0"),
        Some("w1".to_owned()),
        Some("w1:t1".to_owned()),
        Some("w1:p1".to_owned()),
    )
    .is_none());
    let environment = environment_from(
        Some("1"),
        Some("w1".to_owned()),
        Some("w1:t1".to_owned()),
        Some("w1:p1".to_owned()),
    )
    .unwrap();
    assert_eq!(environment.workspace_id.as_deref(), Some("w1"));
    assert_eq!(environment.tab_id.as_deref(), Some("w1:t1"));
    assert_eq!(environment.pane_id.as_deref(), Some("w1:p1"));
}

#[test]
fn scheduler_agent_names_keep_the_run_id_after_truncation() {
    let label = "Hunkle: spy on dan and jorgen #8";
    let third = scheduler_run_agent_name(label, 3);
    let fourth = scheduler_run_agent_name(label, 4);

    assert_ne!(third, fourth);
    assert!(third.ends_with("-r3"));
    assert!(fourth.ends_with("-r4"));
    assert!(third.len() <= 32);
}

#[test]
fn scheduler_agent_names_are_short_and_clean() {
    assert_eq!(hunkle::client::scheduler_agent_name("w1:p4"), "hunkle-w1-p4");
    assert_eq!(hunkle::client::scheduler_agent_name("--!!--"), "hunkle-scheduled");
    let long = hunkle::client::scheduler_agent_name("A very, very long task title that keeps going on");
    assert!(long.len() <= 32);
    assert!(!long.ends_with('-'));
    assert!(!long.contains("--"));
}
