use hunkle::agent::{
    AgentPane, AgentRuntime, AgentSessionIdentity, AgentStatus, AgentTimingKey,
    OpenCodeConversationIdentity,
};
use hunkle::client::AgentStatusEvent;
use hunkle::layout::{AgentLayout, LiveLayoutNode};
use hunkle::session::{
    unix_time_ms, AgentPromptDelivery, AgentPromptOutcome, HerdrSession, SavedAgentLayout,
    MAX_AGENT_LAYOUTS,
};
use hunkle::stash::{AgentStashStore, StashedAgent};
use hunkle::table::KeyedTable;
use hunkle::transcript::AgentUserMessage;

type SaveStash = fn(&Vec<StashedAgent>) -> Result<(), String>;

fn no_save(_: &Vec<StashedAgent>) -> Result<(), String> {
    Ok(())
}

fn session() -> HerdrSession<SaveStash> {
    HerdrSession::new(true, false, AgentStashStore::new(None), no_save as SaveStash)
}

fn working_agent() -> AgentPane {
    AgentPane {
        workspace_id: "w1".to_owned(),
        tab_id: "w1:t1".to_owned(),
        pane_id: "w1:p1".to_owned(),
        terminal_id: None,
        instance_name: None,
        cwd: None,
        destination_cwd: None,
        focused: false,
        runtime: AgentRuntime {
            name: "opencode".to_owned(),
            session_name: None,
            status: AgentStatus::Working,
            timing_key: AgentTimingKey::Pane("opencode@w1:p1".to_owned()),
            session_timing_key: None,
            state_change_seq: 1,
        },
    }
}

fn session_without_snapshot() -> HerdrSession<SaveStash> {
    let mut session = session();
    session.next_refresh_ms = unix_time_ms() + 60_000;
    session
}

fn idle_poll(session: &mut HerdrSession<SaveStash>, animation: bool) -> hunkle::session::HerdrSessionPoll {
    session.poll(Vec::new(), None, Vec::new(), animation)
}

#[test]
fn on_idle_prompt_waits_for_the_matching_agent() {
    let mut session = session_without_snapshot();
    let agent = working_agent();
    let key = agent.runtime.timing_key.duplicate();
    session.observed_agents = vec![agent.duplicate()];
    session.agents = vec![agent];

    assert_eq!(
        session.prompt_agent(0, "later".to_owned(), AgentPromptDelivery::OnIdle),
        Ok(AgentPromptOutcome::Queued)
    );
    assert!(session.agent_prompt_sending(0));
    assert!(session.take_idle_agent_prompts().is_empty());

    session.observed_agents[0].runtime.status = AgentStatus::Idle;
    assert_eq!(
        session.take_idle_agent_prompts(),
        vec![(key, "w1:p1".to_owned(), "later".to_owned())]
    );
    assert!(!session.agent_prompt_sending(0));
}

#[test]
fn on_idle_prompt_is_cancelled_when_agent_departs() {
    let mut session = session_without_snapshot();
    let agent = working_agent();
    session.observed_agents = vec![agent.duplicate()];
    session.agents = vec![agent];
    assert_eq!(
        session.prompt_agent(0, "later".to_owned(), AgentPromptDelivery::OnIdle),
        Ok(AgentPromptOutcome::Queued)
    );

    session.apply_agent_snapshot_at(Vec::new(), unix_time_ms());

    assert!(session.agent_prompts_on_idle.entries.is_empty());
    assert_eq!(
        idle_poll(&mut session, false).notice.as_deref(),
        Some("Queued message cancelled because the agent departed")
    );
}

#[test]
fn on_idle_prompt_uses_the_authoritative_observed_inventory() {
    let mut session = session_without_snapshot();
    let mut agent = working_agent();
    agent.runtime.status = AgentStatus::Idle;
    let key = agent.runtime.timing_key.duplicate();
    session.observed_agents = vec![agent];
    session
        .agent_prompts_on_idle
        .insert(key.duplicate(), "later".to_owned());

    assert_eq!(
        session.take_idle_agent_prompts(),
        vec![(key, "w1:p1".to_owned(), "later".to_owned())]
    );
}

#[test]
fn idle_status_event_makes_a_queued_prompt_dispatchable_without_a_snapshot() {
    let mut session = session_without_snapshot();
    let agent = working_agent();
    let key = agent.runtime.timing_key.duplicate();
    session.observed_agents = vec![agent.duplicate()];
    session.agents = vec![agent];
    session
        .agent_prompts_on_idle
        .insert(key.duplicate(), "later".to_owned());

    session.observe_agent_status_event_at(
        AgentStatusEvent {
            workspace_id: "w1".to_owned(),
            pane_id: "w1:p1".to_owned(),
            status: AgentStatus::Idle,
        },
        10,
    );

    assert_eq!(
        session.take_idle_agent_prompts(),
        vec![(key, "w1:p1".to_owned(), "later".to_owned())]
    );
}

#[test]
fn spinner_advances_only_when_an_animation_was_presented() {
    let mut session = session_without_snapshot();
    session.agents = vec![working_agent()];
    assert!(!idle_poll(&mut session, false).changed);
    assert_eq!(session.spinner_frame, 0);
    assert!(idle_poll(&mut session, true).changed);
    assert_eq!(session.spinner_frame, 1);
}

fn identity(value: &str) -> AgentSessionIdentity {
    AgentSessionIdentity {
        source: "herdr:opencode".to_owned(),
        agent: "opencode".to_owned(),
        kind: "id".to_owned(),
        value: value.to_owned(),
    }
}

fn conversation_identity(value: &str) -> OpenCodeConversationIdentity {
    OpenCodeConversationIdentity {
        session_id: value.to_owned(),
    }
}

fn session_agent(pane_id: &str, identity: AgentSessionIdentity) -> AgentPane {
    let terminal_id = format!("term-{pane_id}");
    AgentPane {
        workspace_id: "w1".to_owned(),
        tab_id: "w1:t1".to_owned(),
        pane_id: pane_id.to_owned(),
        terminal_id: Some(terminal_id.clone()),
        instance_name: None,
        cwd: None,
        destination_cwd: None,
        focused: false,
        runtime: AgentRuntime {
            name: "opencode".to_owned(),
            session_name: None,
            status: AgentStatus::Idle,
            timing_key: AgentTimingKey::Terminal(format!("opencode@{terminal_id}")),
            session_timing_key: Some(AgentTimingKey::Session(identity)),
            state_change_seq: 1,
        },
    }
}

fn message(text: &str) -> Vec<AgentUserMessage> {
    vec![AgentUserMessage {
        text: text.to_owned(),
        requests: Vec::new(),
    }]
}

fn keys<V>(table: &hunkle::keyed::TextTable<V>) -> Vec<String> {
    table.entries.iter().map(|(key, _)| key.clone()).collect()
}

#[test]
fn authoritative_snapshot_prunes_departed_agent_message_state() {
    let mut session = session();
    session.cross_workspace_agents = true;
    let retained = identity("ses_retained");
    let departed = identity("ses_departed");
    let retained_agent = session_agent("w1:p1", retained.duplicate());
    let departed_agent = session_agent("w1:p2", departed.duplicate());
    session.apply_agent_snapshot_at(
        vec![retained_agent.duplicate(), departed_agent],
        unix_time_ms(),
    );
    for identity in [&retained, &departed] {
        let conversation = conversation_identity(&identity.value);
        session.update_transcript(conversation_identity(&identity.value), message(&identity.value));
        session
            .latest_user_message_refreshes
            .insert(conversation.session_id.clone(), unix_time_ms() + 1_000);
        session
            .latest_user_message_statuses
            .insert(conversation.session_id.clone(), AgentStatus::Idle);
    }

    session.apply_agent_snapshot_at(vec![retained_agent], unix_time_ms());

    let retained = conversation_identity(&retained.value).session_id;

    assert_eq!(keys(&session.latest_user_messages), vec![retained.clone()]);
    assert_eq!(
        keys(&session.latest_user_message_refreshes),
        vec![retained.clone()]
    );
    assert_eq!(keys(&session.latest_user_message_statuses), vec![retained]);
}

fn layout(pane_id: &str) -> AgentLayout {
    AgentLayout {
        root: LiveLayoutNode::Pane(pane_id.to_owned()),
    }
}

fn layout_key(index: usize) -> AgentTimingKey {
    AgentTimingKey::Terminal(format!("terminal-{index:03}"))
}

fn saved_layout(index: usize) -> SavedAgentLayout {
    SavedAgentLayout {
        layout: layout(&format!("w1:p{index}")),
        last_used_ms: index as u64,
    }
}

#[test]
fn pruning_preserves_active_and_displayed_agent_layouts() {
    let mut session = session();
    let active_key = layout_key(0);
    let displayed_key = layout_key(1);
    let mut layouts = KeyedTable::new();
    for index in 0..MAX_AGENT_LAYOUTS + 2 {
        layouts.insert(layout_key(index), saved_layout(index));
    }
    session.agent_layouts = layouts;
    session.agents.push(AgentPane {
        workspace_id: "w1".to_owned(),
        tab_id: "w1:t2".to_owned(),
        pane_id: "w1:p2".to_owned(),
        terminal_id: Some("term-2".to_owned()),
        instance_name: None,
        cwd: None,
        destination_cwd: None,
        focused: false,
        runtime: AgentRuntime {
            name: "opencode".to_owned(),
            session_name: None,
            status: AgentStatus::Idle,
            timing_key: active_key.duplicate(),
            session_timing_key: None,
            state_change_seq: 1,
        },
    });
    session.displayed_agent_key = Some(displayed_key.duplicate());

    session.prune_agent_layout_history();

    assert_eq!(session.agent_layouts.len(), MAX_AGENT_LAYOUTS);
    assert!(session.agent_layouts.contains_key(&active_key));
    assert!(session.agent_layouts.contains_key(&displayed_key));
    assert!(!session.agent_layouts.contains_key(&layout_key(2)));
    assert!(!session.agent_layouts.contains_key(&layout_key(3)));
}

#[test]
fn showing_the_current_agent_keeps_it_visible() {
    let mut session = session();
    session.set_host_for_test("w1", "w1:t1", "w1:p1");
    session.agents.push(AgentPane {
        workspace_id: "w1".to_owned(),
        tab_id: "w1:t1".to_owned(),
        pane_id: "w1:p2".to_owned(),
        terminal_id: Some("term-2".to_owned()),
        instance_name: None,
        cwd: Some("/code/hunkle".to_owned()),
        destination_cwd: Some("/code/hunkle".to_owned()),
        focused: false,
        runtime: AgentRuntime {
            name: "opencode".to_owned(),
            session_name: None,
            status: AgentStatus::Idle,
            timing_key: AgentTimingKey::Pane("opencode@w1:p2".to_owned()),
            session_timing_key: None,
            state_change_seq: 1,
        },
    });

    session.show_agent(0).unwrap();

    assert!(session.agent_is_in_host_tab(0));
    assert!(!session.agent_display_running);
}

#[test]
fn stashing_refuses_agents_it_cannot_restore() {
    let mut session = session_without_snapshot();
    session.agents = vec![working_agent()];
    assert_eq!(
        session.stash_agent(0, "/code".to_owned(), "code".to_owned(), "main".to_owned()),
        Err("Agent has not reported its working directory".to_owned())
    );
    let mut untitled = working_agent();
    untitled.cwd = Some("/code/hunkle".to_owned());
    session.agents = vec![untitled];
    assert_eq!(
        session.stash_agent(0, "/code".to_owned(), "code".to_owned(), "main".to_owned()),
        Err("OpenCode session could not be identified without its title".to_owned())
    );
    let mut other = working_agent();
    other.cwd = Some("/code/hunkle".to_owned());
    other.runtime.name = "aider".to_owned();
    session.agents = vec![other];
    assert_eq!(
        session.stash_agent(0, "/code".to_owned(), "code".to_owned(), "main".to_owned()),
        Err("Agent has not reported a resumable session".to_owned())
    );
    assert_eq!(session.agents.len(), 1);
    assert!(!session.agent_stash_running);
}

#[test]
fn stashing_a_titled_agent_hides_it_at_once() {
    let mut session = session_without_snapshot();
    let mut titled = working_agent();
    titled.pane_id = "w1:p2".to_owned();
    titled.cwd = Some("/code/hunkle".to_owned());
    titled.runtime.session_name = Some("Resume this later".to_owned());
    session.agents = vec![titled];
    assert_eq!(
        session.stash_agent(0, "/code/hunkle".to_owned(), "hunkle".to_owned(), "main".to_owned()),
        Ok(())
    );
    assert!(session.agents.is_empty());
    assert!(session.agent_stash_running);
}

#[test]
fn cards_group_agents_by_tab_in_order() {
    let mut session = session_without_snapshot();
    let mut second = working_agent();
    second.pane_id = "w1:p2".to_owned();
    let mut other = working_agent();
    other.tab_id = "w1:t2".to_owned();
    other.pane_id = "w1:p3".to_owned();
    let mut third = working_agent();
    third.pane_id = "w1:p4".to_owned();
    session.agents = vec![working_agent(), other, second, third];
    assert_eq!(session.agent_card_groups(), vec![(0, 3), (1, 1)]);
    assert_eq!(session.agent_card_count(), 2);
}
