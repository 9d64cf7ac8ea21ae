use hunkle::agent::{
    AgentPane, AgentRuntime, AgentSessionIdentity, AgentStatus, AgentTimingKey,
    OpenCodeConversationIdentity,
};
use hunkle::client::scheduler_run_agent_name;
use hunkle::keyed::TextTable;
use hunkle::scheduler::{ScheduledRun, ScheduledRunStatus, ScheduledTask};
use hunkle::session::{unix_time_ms, Completion, HerdrSession, TranscriptEntry, TranscriptFetch};
use hunkle::stash::{AgentStashStore, StashedAgent};
use hunkle::transcript::AgentUserMessage;

type SaveStash = fn(&Vec<StashedAgent>) -> Result<(), String>;

fn no_save(_: &Vec<StashedAgent>) -> Result<(), String> {
    Ok(())
}

fn session() -> HerdrSession<SaveStash> {
    HerdrSession::new(true, false, AgentStashStore::new(None), no_save as SaveStash)
}

fn quiet_session() -> HerdrSession<SaveStash> {
    let mut session = session();
    session.next_refresh_ms = unix_time_ms() + 60_000;
    session
}

fn identity(value: &str) -> AgentSessionIdentity {
    AgentSessionIdentity {
        source: "herdr:opencode".to_owned(),
        agent: "opencode".to_owned(),
        kind: "id".to_owned(),
        value: value.to_owned(),
    }
}

fn conversation_identity(value: &str) -> OpenCodeConversationIdentity {
    OpenCodeConversationIdentity {
        session_id: value.to_owned(),
    }
}

fn agent(pane_id: &str, identity: AgentSessionIdentity) -> AgentPane {
    let terminal_id = format!("term-{pane_id}");
    AgentPane {
        workspace_id: "w1".to_owned(),
        tab_id: "w1:t1".to_owned(),
        pane_id: pane_id.to_owned(),
        terminal_id: Some(terminal_id.clone()),
        instance_name: None,
        cwd: None,
        destination_cwd: None,
        focused: false,
        runtime: AgentRuntime {
            name: "opencode".to_owned(),
            session_name: None,
            status: AgentStatus::Idle,
            timing_key: AgentTimingKey::Terminal(format!("opencode@{terminal_id}")),
            session_timing_key: Some(AgentTimingKey::Session(identity)),
            state_change_seq: 1,
        },
    }
}

fn message(text: &str) -> Vec<AgentUserMessage> {
    vec![AgentUserMessage {
        text: text.to_owned(),
        requests: Vec::new(),
    }]
}

fn poll(session: &mut HerdrSession<SaveStash>, completions: Vec<Completion>) -> bool {
    session.poll(completions, None, Vec::new(), false).changed
}

fn entry<'a>(table: &'a TextTable<TranscriptEntry>, key: &str) -> &'a TranscriptEntry {
    &table.entries.iter().find(|(k, _)| k == key).unwrap().1
}

fn has<V>(table: &TextTable<V>, key: &str) -> bool {
    table.entries.iter().any(|(k, _)| k == key)
}

#[test]
fn binds_a_scheduled_run_to_its_live_terminal_and_session() {
    let mut session = session();
    session.set_scheduled_tasks_for_test(vec![ScheduledTask {
        id: 7,
        title: "Nightly review".to_owned(),
        description: String::new(),
        prompt: "Review".to_owned(),
        model: String::new(),
        discord_webhook_id: String::new(),
        destination: "/repo".to_owned(),
        repository: "repo".to_owned(),
        branch: "main".to_owned(),
        enabled: true,
        interval_minutes: 60,
        next_run_ms: 3_600_000,
        source: None,
        project_status: None,
    }]);
    session.set_scheduled_runs_for_test(vec![ScheduledRun {
        id: 9,
        task_id: 7,
        created_at_ms: 1,
        status: ScheduledRunStatus::Completed,
        pane_id: Some("departed:pane".to_owned()),
        terminal_id: None,
        session_id: None,
        error: None,
    }]);
    let mut remote = agent("w2:p9", identity("ses_remote"));
    remote.workspace_id = "w2".to_owned();
    remote.cwd = Some("/repo".to_owned());
    remote.instance_name = Some(scheduler_run_agent_name("Hunkle: Nightly review #7", 9));

    session.apply_agent_snapshot_at(vec![remote], unix_time_ms());

    let run = &session.scheduler.as_ref().unwrap().runs[0];
    assert_eq!(run.pane_id.as_deref(), Some("w2:p9"));
    assert_eq!(run.terminal_id.as_deref(), Some("term-w2:p9"));
    assert_eq!(run.session_id.as_deref(), Some("ses_remote"));
}

#[test]
fn retains_a_scheduled_conversation_without_a_live_agent() {
    let mut session = quiet_session();
    let identity = conversation_identity("ses_scheduled");
    session.scheduled_preview_identity = Some(conversation_identity("ses_scheduled"));
    session
        .latest_user_message_requests
        .insert(identity.session_id.clone(), ());

    poll(
        &mut session,
        vec![Completion::ScheduledConversation {
            identity,
            result: Ok(TranscriptFetch::Changed(message("durable history"))),
        }],
    );
    session.apply_agent_snapshot_at(Vec::new(), unix_time_ms());

    assert_eq!(
        session.scheduled_conversation("ses_scheduled").unwrap()[0].text,
        "durable history"
    );
    assert!(session.agents.is_empty());
}

#[test]
fn scheduler_history_is_visible_from_a_live_identity_alias() {
    let mut session = quiet_session();
    session.cross_workspace_agents = true;
    session.apply_agent_snapshot_at(vec![agent("w1:p1", identity("ses_shared"))], unix_time_ms());
    session
        .latest_user_message_requests
        .insert("ses_shared".to_owned(), ());

    poll(
        &mut session,
        vec![Completion::ScheduledConversation {
            identity: conversation_identity("ses_shared"),
            result: Ok(TranscriptFetch::Changed(message("shared history"))),
        }],
    );

    assert_eq!(session.agent_user_messages(0).unwrap()[0].text, "shared history");
    assert_eq!(
        session.scheduled_conversation("ses_shared").unwrap()[0].text,
        "shared history"
    );
}

#[test]
fn envelope_changes_preserve_in_flight_state_and_departure_prunes_it() {
    let mut session = quiet_session();
    session.cross_workspace_agents = true;
    let replacement_identity = AgentSessionIdentity {
        source: "opencode".to_owned(),
        agent: "opencode".to_owned(),
        kind: "session_id".to_owned(),
        value: "ses_stable".to_owned(),
    };
    let key = "ses_stable".to_owned();
    session.apply_agent_snapshot_at(vec![agent("w1:p1", identity("ses_stable"))], unix_time_ms());
    session.update_transcript(conversation_identity("ses_stable"), message("cached"));
    session.latest_user_message_requests.insert(key.clone(), ());
    session
        .latest_user_message_refreshes
        .insert(key.clone(), unix_time_ms() + 1_000);
    session
        .latest_user_message_statuses
        .insert(key.clone(), AgentStatus::Idle);
    session
        .scheduled_conversation_errors
        .insert(key.clone(), "old error".to_owned());

    session.apply_agent_snapshot_at(vec![agent("w1:p1", replacement_identity)], unix_time_ms());
    assert!(has(&session.latest_user_message_requests, &key));
    poll(
        &mut session,
        vec![Completion::LatestUserMessage {
            identity: conversation_identity("ses_stable"),
            result: Ok(TranscriptFetch::Changed(message("completed"))),
        }],
    );

    assert_eq!(session.agent_user_messages(0).unwrap()[0].text, "completed");
    assert!(has(&session.latest_user_message_refreshes, &key));
    assert!(has(&session.latest_user_message_statuses, &key));
    assert!(has(&session.scheduled_conversation_errors, &key));
    session.latest_user_message_requests.insert(key.clone(), ());

    session.apply_agent_snapshot_at(Vec::new(), unix_time_ms());

    assert!(!has(&session.latest_user_messages, &key));
    assert!(!has(&session.latest_user_message_requests, &key));
    assert!(!has(&session.latest_user_message_refreshes, &key));
    assert!(!has(&session.latest_user_message_statuses, &key));
    assert!(!has(&session.scheduled_conversation_errors, &key));
}

#[test]
fn departed_agent_completion_does_not_restore_message_state() {
    let mut session = quiet_session();
    session.cross_workspace_agents = true;
    let key = "ses_departed".to_owned();
    session.apply_agent_snapshot_at(vec![agent("w1:p1", identity("ses_departed"))], unix_time_ms());
    session.latest_user_message_requests.insert(key.clone(), ());
    session
        .latest_user_message_refreshes
        .insert(key.clone(), unix_time_ms() + 1_000);
    session
        .latest_user_message_statuses
        .insert(key.clone(), AgentStatus::Idle);

    session.apply_agent_snapshot_at(Vec::new(), unix_time_ms());
    poll(
        &mut session,
        vec![Completion::LatestUserMessage {
            identity: conversation_identity("ses_departed"),
            result: Ok(TranscriptFetch::Changed(message("stale"))),
        }],
    );

    assert!(!has(&session.latest_user_messages, &key));
    assert!(!has(&session.latest_user_message_requests, &key));
    assert!(!has(&session.latest_user_message_refreshes, &key));
    assert!(!has(&session.latest_user_message_statuses, &key));
}

#[test]
fn unchanged_and_equal_completions_preserve_cached_transcript_without_redraw() {
    let mut session = quiet_session();
    let key = "ses_cached";
    session.update_transcript(conversation_identity(key), message("cached"));
    session
        .latest_user_message_refreshes
        .insert(key.to_owned(), unix_time_ms() + 1_000);
    let original = entry(&session.latest_user_messages, key).messages.as_ptr();
    let original_revision = entry(&session.latest_user_messages, key).revision;

    session.latest_user_message_requests.insert(key.to_owned(), ());
    assert!(!poll(
        &mut session,
        vec![Completion::LatestUserMessage {
            identity: conversation_identity(key),
            result: Ok(TranscriptFetch::Unchanged),
        }],
    ));
    assert_eq!(entry(&session.latest_user_messages, key).messages.as_ptr(), original);
    assert_eq!(entry(&session.latest_user_messages, key).revision, original_revision);

    session.latest_user_message_requests.insert(key.to_owned(), ());
    assert!(!poll(
        &mut session,
        vec![Completion::LatestUserMessage {
            identity: conversation_identity(key),
            result: Ok(TranscriptFetch::Changed(message("cached"))),
        }],
    ));
    assert_eq!(entry(&session.latest_user_messages, key).messages.as_ptr(), original);
    assert_eq!(entry(&session.latest_user_messages, key).revision, original_revision);

    session.latest_user_message_requests.insert(key.to_owned(), ());
    assert!(poll(
        &mut session,
        vec![Completion::LatestUserMessage {
            identity: conversation_identity(key),
            result: Ok(TranscriptFetch::Changed(message("updated"))),
        }],
    ));
    assert_eq!(entry(&session.latest_user_messages, key).messages[0].text, "updated");
    assert_ne!(entry(&session.latest_user_messages, key).revision, original_revision);
}
