use hunkle::agent::{AgentPane, AgentRuntime, AgentSessionIdentity, AgentStatus, AgentTimingKey};
use hunkle::pending::{Operation, PendingRequests, Request, MAX_PENDING_REQUESTS};
use hunkle::table::KeyedTable;
use hunkle::timing::{
    migrate_session_timings, prune, AgentTimeDisplay, AgentTiming, TimingTable, MAX_AGENT_TIMINGS,
};

fn status_request(index: u64, generation: u64) -> Request {
    let key = AgentTimingKey::Terminal("agent".to_owned());
    let mut submitted: TimingTable = KeyedTable::new();
    submitted.insert(key.duplicate(), AgentTiming::new(AgentStatus::Working, index, index));
    Request {
        submitted,
        clear_generation: generation,
        operation: Operation::Status {
            key,
            status: AgentStatus::Working,
            state_change_seq: index,
            now_ms: index,
        },
    }
}

fn snapshot_request(index: u64, generation: u64) -> Request {
    Request {
        submitted: status_request(index, generation).submitted,
        clear_generation: generation,
        operation: Operation::Snapshot {
            agents: Vec::new(),
            now_ms: index,
        },
    }
}

fn reset_request(index: u64, generation: u64) -> Request {
    Request {
        submitted: KeyedTable::new(),
        clear_generation: generation,
        operation: Operation::Reset {
            agents: Vec::new(),
            now_ms: index,
        },
    }
}

#[test]
fn pending_timing_work_coalesces_status_and_snapshot_bursts() {
    let mut pending = PendingRequests::new();

    for index in 1..=100 {
        assert!(pending.enqueue(status_request(index, 0)).is_none());
        assert!(pending.enqueue(snapshot_request(index, 0)).is_none());
        assert!(pending.queue.len() <= 2);
    }

    assert_eq!(pending.queue.len(), 2);
    assert!(matches!(
        &pending.queue[0].operation,
        Operation::Status { now_ms: 100, .. }
    ));
    assert!(matches!(
        &pending.queue[1].operation,
        Operation::Snapshot { now_ms: 100, .. }
    ));
    assert_eq!(pending.queue[1].submitted.entries[0].1.state_change_seq, 100);
}

#[test]
fn pending_timing_resets_remain_ordered_barriers() {
    let mut pending = PendingRequests::new();
    assert!(pending.enqueue(status_request(1, 0)).is_none());
    assert!(pending.enqueue(snapshot_request(2, 0)).is_none());
    assert!(pending.enqueue(reset_request(3, 1)).is_none());
    assert!(pending.enqueue(status_request(4, 1)).is_none());
    assert!(pending.enqueue(snapshot_request(5, 1)).is_none());

    assert!(pending.enqueue(reset_request(6, 2)).is_none());
    assert!(pending.enqueue(status_request(7, 2)).is_none());

    assert_eq!(pending.queue.len(), 3);
    assert!(matches!(
        &pending.queue[0].operation,
        Operation::Reset { now_ms: 3, .. }
    ));
    assert!(matches!(
        &pending.queue[1].operation,
        Operation::Reset { now_ms: 6, .. }
    ));
    assert!(matches!(
        &pending.queue[2].operation,
        Operation::Status { now_ms: 7, .. }
    ));
    assert_eq!(
        pending
            .queue
            .iter()
            .map(|request| request.clear_generation)
            .collect::<Vec<_>>(),
        vec![1, 2, 2]
    );
    assert!(pending.enqueue(reset_request(8, 3)).is_none());
    assert!(pending.enqueue(reset_request(9, 4)).is_some());
    assert_eq!(pending.queue.len(), MAX_PENDING_REQUESTS);
    assert_eq!(
        pending
            .queue
            .iter()
            .map(|request| request.clear_generation)
            .collect::<Vec<_>>(),
        vec![1, 2, 3]
    );
}

#[test]
fn migrates_the_active_session_timer_to_the_agent() {
    let session_key = AgentTimingKey::Session(AgentSessionIdentity {
        source: "herdr:opencode".to_owned(),
        agent: "opencode".to_owned(),
        kind: "id".to_owned(),
        value: "ses_old".to_owned(),
    });
    let agent_key = AgentTimingKey::Terminal("opencode@term-1".to_owned());
    let agent = AgentPane {
        workspace_id: "workspace".to_owned(),
        tab_id: "tab".to_owned(),
        pane_id: "pane".to_owned(),
        terminal_id: None,
        instance_name: None,
        cwd: None,
        destination_cwd: None,
        focused: false,
        runtime: AgentRuntime {
            name: "opencode".to_owned(),
            session_name: None,
            status: AgentStatus::Idle,
            timing_key: agent_key.duplicate(),
            session_timing_key: Some(session_key.duplicate()),
            state_change_seq: 7,
        },
    };
    let timing = AgentTiming {
        elapsed_ms: 3_000,
        session_elapsed_ms: 12_000,
        running_since_ms: None,
        status: AgentStatus::Idle,
        state_change_seq: 7,
        last_seen_ms: 1_000,
        awaiting_sequence: false,
    };
    let mut timings: TimingTable = KeyedTable::new();
    timings.insert(session_key.duplicate(), timing);

    migrate_session_timings(&mut timings, &vec![agent]);

    assert!(!timings.contains_key(&session_key));
    let migrated = timings
        .entries
        .iter()
        .find(|(key, _)| *key == agent_key)
        .map(|(_, timing)| timing)
        .unwrap();
    assert_eq!(migrated.elapsed_at(AgentTimeDisplay::AgentTotal, 2_000), 15_000);
}

#[test]
fn keeps_only_the_512_most_recent_agents() {
    let mut timings: TimingTable = KeyedTable::new();
    for index in 0..=MAX_AGENT_TIMINGS {
        let key = AgentTimingKey::Terminal(format!("session-{index:03}"));
        timings.insert(
            key,
            AgentTiming::new(AgentStatus::Working, index as u64, index as u64),
        );
    }

    prune(&mut timings, &Vec::new());

    assert_eq!(timings.len(), MAX_AGENT_TIMINGS);
    assert!(!timings.contains_key(&AgentTimingKey::Terminal("session-000".to_owned())));
    assert!(timings.contains_key(&AgentTimingKey::Terminal("session-512".to_owned())));
}
