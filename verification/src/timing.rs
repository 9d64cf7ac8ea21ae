//! How long each agent has been working: the per-agent timer, the table of
//! timers kept across snapshots, and how local and shared history are merged.
use vstd::prelude::*;
use crate::agent::{AgentPane, AgentStatus, AgentTimingKey, TimingKeyView};
use crate::table::{KeyedTable, Stamped, map_of, distinct_keys, kept_from, evicted_in_order, key_in};

verus! {

/// The most timers kept; older ones are evicted.
pub const MAX_AGENT_TIMINGS: usize = 512;

/// How often an unchanged agent refreshes its last-seen time.
pub const TIMING_LAST_SEEN_INTERVAL_MS: u64 = 60000;

/// Which elapsed time an agent card shows.
#[derive(Debug, Clone, Copy, PartialEq, Eq, Structural)]
pub enum AgentTimeDisplay {
    LatestLoop,
    AgentTotal,
}

/// The timer of one agent.
#[derive(Debug, Clone, Copy, PartialEq, Eq, Structural)]
pub struct AgentTiming {
    pub elapsed_ms: u64,
    pub session_elapsed_ms: u64,
    pub running_since_ms: Option<u64>,
    pub status: AgentStatus,
    pub state_change_seq: u64,
    pub last_seen_ms: u64,
    pub awaiting_sequence: bool,
}

impl Stamped for AgentTiming {
    open spec fn stamp(&self) -> u64 {
        self.last_seen_ms
    }

    fn stamp_exec(&self) -> (r: u64) {
        self.last_seen_ms
    }
}

/// A timer table: one timer per key.
pub type TimingTable = KeyedTable<AgentTiming>;

impl AgentTiming {
    pub open spec fn spec_new(status: AgentStatus, state_change_seq: u64, now_ms: u64) -> AgentTiming {
        AgentTiming {
            elapsed_ms: 0,
            session_elapsed_ms: 0,
            running_since_ms: if status == AgentStatus::Working {
                Some(now_ms)
            } else {
                None
            },
            status,
            state_change_seq,
            last_seen_ms: now_ms,
            awaiting_sequence: false,
        }
    }

    /// Stops the running clock, adding the time since it started.
    pub open spec fn spec_pause(self, now_ms: u64) -> AgentTiming {
        match self.running_since_ms {
            Some(started) => AgentTiming {
                elapsed_ms: self.elapsed_ms.saturating_add(now_ms.saturating_sub(started)),
                running_since_ms: None,
                ..self
            },
            None => self,
        }
    }

    /// Closes the current loop into the agent total and starts a new one.
    pub open spec fn spec_start_loop(self, now_ms: u64) -> AgentTiming {
        let p = self.spec_pause(now_ms);
        AgentTiming {
            session_elapsed_ms: p.session_elapsed_ms.saturating_add(p.elapsed_ms),
            elapsed_ms: 0,
            running_since_ms: Some(now_ms),
            ..p
        }
    }

    /// The clock after the status changes to `status`.
    pub open spec fn spec_clock(self, status: AgentStatus, sequence_changed: bool, now_ms: u64) -> AgentTiming {
        match status {
            AgentStatus::Working => match self.status {
                AgentStatus::Working => if sequence_changed {
                    self.spec_start_loop(now_ms)
                } else {
                    self
                },
                AgentStatus::Blocked | AgentStatus::Unknown => AgentTiming {
                    running_since_ms: Some(now_ms),
                    ..self
                },
                AgentStatus::Idle | AgentStatus::Done => self.spec_start_loop(now_ms),
            },
            AgentStatus::Blocked | AgentStatus::Unknown => {
                let base = if self.status == AgentStatus::Idle || self.status == AgentStatus::Done {
                    AgentTiming { elapsed_ms: 0, ..self }
                } else {
                    self
                };
                base.spec_pause(now_ms)
            },
            AgentStatus::Idle | AgentStatus::Done => self.spec_pause(now_ms),
        }
    }

    pub open spec fn spec_sequence_changed(self, state_change_seq: u64) -> bool {
        self.state_change_seq != 0 && state_change_seq != 0 && self.state_change_seq
            != state_change_seq && !self.awaiting_sequence
    }

    /// The timer after Herdr reports `status` with `state_change_seq`.
    pub open spec fn spec_observe(self, status: AgentStatus, state_change_seq: u64, now_ms: u64) -> AgentTiming {
        let sequence_changed = self.spec_sequence_changed(state_change_seq);
        let reconciles_event = self.awaiting_sequence && state_change_seq != 0
            && self.state_change_seq != state_change_seq;
        let transition = self.status != status || sequence_changed;
        let clock = self.spec_clock(status, sequence_changed, now_ms);
        let updated = AgentTiming {
            status,
            state_change_seq,
            awaiting_sequence: if reconciles_event {
                false
            } else {
                clock.awaiting_sequence
            },
            ..clock
        };
        if transition || now_ms.saturating_sub(self.last_seen_ms) >= TIMING_LAST_SEEN_INTERVAL_MS {
            AgentTiming { last_seen_ms: now_ms, ..updated }
        } else {
            updated
        }
    }

    /// The timer after a live status event, which carries no sequence number.
    pub open spec fn spec_observe_event(self, status: AgentStatus, now_ms: u64) -> AgentTiming {
        AgentTiming {
            awaiting_sequence: true,
            ..self.spec_observe(status, self.state_change_seq, now_ms)
        }
    }

    /// The elapsed milliseconds the card shows at `now_ms`.
    pub open spec fn spec_elapsed_at(self, display: AgentTimeDisplay, now_ms: u64) -> u64 {
        let running = match self.running_since_ms {
            Some(started) => now_ms.saturating_sub(started),
            None => 0,
        };
        let latest = self.elapsed_ms.saturating_add(running);
        match display {
            AgentTimeDisplay::LatestLoop => latest,
            AgentTimeDisplay::AgentTotal => self.session_elapsed_ms.saturating_add(latest),
        }
    }

    pub fn new(status: AgentStatus, state_change_seq: u64, now_ms: u64) -> (r: AgentTiming)
        ensures
            r == Self::spec_new(status, state_change_seq, now_ms),
    {
        AgentTiming {
            elapsed_ms: 0,
            session_elapsed_ms: 0,
            running_since_ms: if status == AgentStatus::Working {
                Some(now_ms)
            } else {
                None
            },
            status,
            state_change_seq,
            last_seen_ms: now_ms,
            awaiting_sequence: false,
        }
    }

    pub fn pause(&mut self, now_ms: u64)
        ensures
            *final(self) == old(self).spec_pause(now_ms),
    {
        if let Some(started_ms) = self.running_since_ms {
            self.elapsed_ms = self.elapsed_ms.saturating_add(now_ms.saturating_sub(started_ms));
            self.running_since_ms = None;
        }
    }

    pub fn start_loop(&mut self, now_ms: u64)
        ensures
            *final(self) == old(self).spec_start_loop(now_ms),
    {
        self.pause(now_ms);
        self.session_elapsed_ms = self.session_elapsed_ms.saturating_add(self.elapsed_ms);
        self.elapsed_ms = 0;
        self.running_since_ms = Some(now_ms);
    }

    pub fn observe(&mut self, status: AgentStatus, state_change_seq: u64, now_ms: u64)
        ensures
            *final(self) == old(self).spec_observe(status, state_change_seq, now_ms),
    {
        let sequence_changed = self.state_change_seq != 0 && state_change_seq != 0
            && self.state_change_seq != state_change_seq && !self.awaiting_sequence;
        let reconciles_event = self.awaiting_sequence && state_change_seq != 0
            && self.state_change_seq != state_change_seq;
        let transition = self.status != status || sequence_changed;
        let previous_status = self.status;
        let last_seen = self.last_seen_ms;
        match status {
            AgentStatus::Working => match previous_status {
                AgentStatus::Working => {
                    if sequence_changed {
                        self.start_loop(now_ms);
                    }
                },
                AgentStatus::Blocked | AgentStatus::Unknown => {
                    self.running_since_ms = Some(now_ms);
                },
                AgentStatus::Idle | AgentStatus::Done => self.start_loop(now_ms),
            },
            AgentStatus::Blocked | AgentStatus::Unknown => {
                if previous_status == AgentStatus::Idle || previous_status == AgentStatus::Done {
                    self.elapsed_ms = 0;
                }
                self.pause(now_ms);
            },
            AgentStatus::Idle | AgentStatus::Done => self.pause(now_ms),
        }
        self.status = status;
        self.state_change_seq = state_change_seq;
        if reconciles_event {
            self.awaiting_sequence = false;
        }
        if transition || now_ms.saturating_sub(last_seen) >= TIMING_LAST_SEEN_INTERVAL_MS {
            self.last_seen_ms = now_ms;
        }
    }

    pub fn observe_event(&mut self, status: AgentStatus, now_ms: u64)
        ensures
            *final(self) == old(self).spec_observe_event(status, now_ms),
    {
        let seq = self.state_change_seq;
        self.observe(status, seq, now_ms);
        self.awaiting_sequence = true;
    }

    /// Elapsed milliseconds, for the loop alone or the agent's total.
    pub fn elapsed_at(&self, display: AgentTimeDisplay, now_ms: u64) -> (r: u64)
        ensures
            r == self.spec_elapsed_at(display, now_ms),
    {
        let running_ms = match self.running_since_ms {
            Some(started_ms) => now_ms.saturating_sub(started_ms),
            None => 0,
        };
        let latest_ms = self.elapsed_ms.saturating_add(running_ms);
        match display {
            AgentTimeDisplay::LatestLoop => latest_ms,
            AgentTimeDisplay::AgentTotal => self.session_elapsed_ms.saturating_add(latest_ms),
        }
    }
}

/// Pausing a timer does not change the time it shows at that moment.
pub proof fn lemma_pause_keeps_display(t: AgentTiming, display: AgentTimeDisplay, now_ms: u64)
    ensures
        t.spec_pause(now_ms).spec_elapsed_at(display, now_ms) == t.spec_elapsed_at(display, now_ms),
{
}

/// Starting a new loop does not change the agent total shown at that moment,
/// and the new loop starts at zero.
pub proof fn lemma_start_loop_keeps_total(t: AgentTiming, now_ms: u64)
    ensures
        t.spec_start_loop(now_ms).spec_elapsed_at(AgentTimeDisplay::AgentTotal, now_ms)
            == t.spec_elapsed_at(AgentTimeDisplay::AgentTotal, now_ms),
        t.spec_start_loop(now_ms).spec_elapsed_at(AgentTimeDisplay::LatestLoop, now_ms) == 0,
{
}

/// A timer only runs while its agent is working, and the loop shown never
/// exceeds the agent total.
pub proof fn lemma_observe_runs_only_while_working(
    t: AgentTiming,
    status: AgentStatus,
    state_change_seq: u64,
    now_ms: u64,
    later_ms: u64,
)
    requires
        t.running_since_ms is Some ==> t.status == AgentStatus::Working,
    ensures
        t.spec_observe(status, state_change_seq, now_ms).running_since_ms is Some ==> status
            == AgentStatus::Working,
        t.spec_observe(status, state_change_seq, now_ms).spec_elapsed_at(
            AgentTimeDisplay::LatestLoop,
            later_ms,
        ) <= t.spec_observe(status, state_change_seq, now_ms).spec_elapsed_at(
            AgentTimeDisplay::AgentTotal,
            later_ms,
        ),
{
}

/// When an agent that was idle or done starts working, a new loop starts:
/// at that moment the loop shows no time and the agent total shows what it
/// showed before; afterwards the loop shows the time since then.
pub proof fn lemma_work_after_rest_starts_new_loop(
    t: AgentTiming,
    state_change_seq: u64,
    now_ms: u64,
    later_ms: u64,
)
    requires
        t.status == AgentStatus::Idle || t.status == AgentStatus::Done,
        now_ms <= later_ms,
    ensures
        ({
            let u = t.spec_observe(AgentStatus::Working, state_change_seq, now_ms);
            &&& u.status == AgentStatus::Working
            &&& u.spec_elapsed_at(AgentTimeDisplay::LatestLoop, now_ms) == 0
            &&& u.spec_elapsed_at(AgentTimeDisplay::AgentTotal, now_ms) == t.spec_elapsed_at(
                AgentTimeDisplay::AgentTotal,
                now_ms,
            )
            &&& u.spec_elapsed_at(AgentTimeDisplay::LatestLoop, later_ms) == later_ms - now_ms
        }),
{
    lemma_start_loop_keeps_total(t, now_ms);
}

/// The effect of one agent of a snapshot on the timer table.
pub open spec fn spec_update_one(m: Map<TimingKeyView, AgentTiming>, agent: AgentPane, now_ms: u64) -> Map<
    TimingKeyView,
    AgentTiming,
> {
    let key = agent.runtime.timing_key@;
    let seq = agent.runtime.state_change_seq;
    if m.dom().contains(key) {
        let t = m[key];
        if t.state_change_seq == 0 || seq == 0 || seq >= t.state_change_seq {
            m.insert(key, t.spec_observe(agent.runtime.status, seq, now_ms))
        } else {
            m
        }
    } else if agent.runtime.status.spec_should_track_timing() {
        m.insert(key, AgentTiming::spec_new(agent.runtime.status, seq, now_ms))
    } else {
        m
    }
}

/// The timer table after the agents of a snapshot, taken in order.
pub open spec fn spec_update(m: Map<TimingKeyView, AgentTiming>, agents: Seq<AgentPane>, now_ms: u64) -> Map<
    TimingKeyView,
    AgentTiming,
>
    decreases agents.len(),
{
    if agents.len() == 0 {
        m
    } else {
        spec_update_one(spec_update(m, agents.drop_last(), now_ms), agents.last(), now_ms)
    }
}

/// Moves the timer kept under an agent's session key to its agent key.
pub open spec fn spec_migrate_one(m: Map<TimingKeyView, AgentTiming>, agent: AgentPane) -> Map<
    TimingKeyView,
    AgentTiming,
> {
    let key = agent.runtime.timing_key@;
    if m.dom().contains(key) {
        m
    } else {
        match agent.runtime.session_timing_key {
            Some(session) => if m.dom().contains(session@) {
                m.remove(session@).insert(key, m[session@])
            } else {
                m
            },
            None => m,
        }
    }
}

pub open spec fn spec_migrate(m: Map<TimingKeyView, AgentTiming>, agents: Seq<AgentPane>) -> Map<
    TimingKeyView,
    AgentTiming,
>
    decreases agents.len(),
{
    if agents.len() == 0 {
        m
    } else {
        spec_migrate_one(spec_migrate(m, agents.drop_last()), agents.last())
    }
}

/// The timer table after one snapshot observation of each agent.
pub fn update(timings: &mut TimingTable, agents: &Vec<AgentPane>, now_ms: u64)
    requires
        old(timings).wf(),
    ensures
        final(timings).wf(),
        final(timings)@ == spec_update(old(timings)@, agents@, now_ms),
{
    let mut i: usize = 0;
    while i < agents.len()
        invariant
            i <= agents.len(),
            timings.wf(),
            timings@ == spec_update(old(timings)@, agents@.take(i as int), now_ms),
        decreases agents.len() - i,
    {
        let agent = &agents[i];
        assert(agents@.take(i + 1).drop_last() =~= agents@.take(i as int));
        match timings.position(&agent.runtime.timing_key) {
            Some(p) => {
                let mut t = timings.entries[p].1;
                if t.state_change_seq == 0 || agent.runtime.state_change_seq == 0
                    || agent.runtime.state_change_seq >= t.state_change_seq {
                    t.observe(agent.runtime.status, agent.runtime.state_change_seq, now_ms);
                    timings.insert(agent.runtime.timing_key.duplicate(), t);
                }
            },
            None => {
                if agent.runtime.status.should_track_timing() {
                    timings.insert(
                        agent.runtime.timing_key.duplicate(),
                        AgentTiming::new(agent.runtime.status, agent.runtime.state_change_seq, now_ms),
                    );
                }
            },
        }
        i = i + 1;
    }
    assert(agents@.take(agents.len() as int) =~= agents@);
}

/// Carries each agent's session timer over to the agent's own key.
pub fn migrate_session_timings(timings: &mut TimingTable, agents: &Vec<AgentPane>)
    requires
        old(timings).wf(),
    ensures
        final(timings).wf(),
        final(timings)@ == spec_migrate(old(timings)@, agents@),
{
    let mut i: usize = 0;
    while i < agents.len()
        invariant
            i <= agents.len(),
            timings.wf(),
            timings@ == spec_migrate(old(timings)@, agents@.take(i as int)),
        decreases agents.len() - i,
    {
        let agent = &agents[i];
        assert(agents@.take(i + 1).drop_last() =~= agents@.take(i as int));
        if !timings.contains_key(&agent.runtime.timing_key) {
            if let Some(session_key) = &agent.runtime.session_timing_key {
                if let Some(timing) = timings.remove(session_key) {
                    timings.insert(agent.runtime.timing_key.duplicate(), timing);
                }
            }
        }
        i = i + 1;
    }
    assert(agents@.take(agents.len() as int) =~= agents@);
}

/// The keys of the agents, in order.
pub fn agent_keys(agents: &Vec<AgentPane>) -> (r: Vec<AgentTimingKey>)
    ensures
        r@.len() == agents@.len(),
        forall|i: int| 0 <= i < r@.len() ==> #[trigger] r@[i] == agents@[i].runtime.timing_key,
{
    let mut keys: Vec<AgentTimingKey> = Vec::new();
    let mut i: usize = 0;
    while i < agents.len()
        invariant
            i <= agents.len(),
            keys@.len() == i,
            forall|j: int| 0 <= j < i ==> #[trigger] keys@[j] == agents@[j].runtime.timing_key,
        decreases agents.len() - i,
    {
        keys.push(agents[i].runtime.timing_key.duplicate());
        i = i + 1;
    }
    keys
}

/// What pruning a timer table to `MAX_AGENT_TIMINGS` guarantees, with `active`
/// the keys of the live agents.
pub open spec fn pruned(
    before: Map<TimingKeyView, AgentTiming>,
    after: Map<TimingKeyView, AgentTiming>,
    active: Seq<AgentTimingKey>,
) -> bool {
    &&& before.len() <= MAX_AGENT_TIMINGS ==> after == before
    &&& before.len() > MAX_AGENT_TIMINGS ==> after.len() == MAX_AGENT_TIMINGS
    &&& kept_from(before, after)
    &&& evicted_in_order(before, after, active)
    &&& (exists|k: TimingKeyView|
        before.dom().contains(k) && !after.dom().contains(k) && key_in(active, k))
        ==> forall|k: TimingKeyView| #[trigger] after.dom().contains(k) ==> key_in(active, k)
}

/// Keeps at most `MAX_AGENT_TIMINGS` timers, evicting the least recently seen;
/// the timers of `active` agents go only after all others.
pub fn prune(timings: &mut TimingTable, active: &Vec<AgentTimingKey>)
    requires
        old(timings).wf(),
    ensures
        final(timings).wf(),
        pruned(old(timings)@, final(timings)@, active@),
{
    timings.prune(active, MAX_AGENT_TIMINGS, true);
}

/// The timer table after an authoritative snapshot of the live agents.
pub fn update_snapshot(timings: &mut TimingTable, agents: &Vec<AgentPane>, now_ms: u64)
    requires
        old(timings).wf(),
    ensures
        final(timings).wf(),
        exists|keys: Seq<AgentTimingKey>| #![auto]
            keys.len() == agents@.len() && (forall|i: int| 0 <= i < keys.len() ==> keys[i] == agents@[i].runtime.timing_key)
            && pruned(
                spec_update(spec_migrate(old(timings)@, agents@), agents@, now_ms),
                final(timings)@,
                keys,
            ),
{
    migrate_session_timings(timings, agents);
    update(timings, agents, now_ms);
    let keys = agent_keys(agents);
    prune(timings, &keys);
}

pub open spec fn spec_observe_status(
    m: Map<TimingKeyView, AgentTiming>,
    key: TimingKeyView,
    status: AgentStatus,
    state_change_seq: u64,
    now_ms: u64,
) -> Map<TimingKeyView, AgentTiming> {
    if m.dom().contains(key) {
        m.insert(key, m[key].spec_observe_event(status, now_ms))
    } else if status.spec_should_track_timing() {
        m.insert(
            key,
            AgentTiming {
                awaiting_sequence: true,
                ..AgentTiming::spec_new(status, state_change_seq, now_ms)
            },
        )
    } else {
        m
    }
}

/// The timer table after a live status event for `key`.
pub fn observe_status_local(
    timings: &mut TimingTable,
    key: &AgentTimingKey,
    status: AgentStatus,
    state_change_seq: u64,
    now_ms: u64,
)
    requires
        old(timings).wf(),
    ensures
        final(timings).wf(),
        final(timings)@ == spec_observe_status(old(timings)@, key@, status, state_change_seq, now_ms),
{
    match timings.position(key) {
        Some(p) => {
            let mut t = timings.entries[p].1;
            t.observe_event(status, now_ms);
            timings.insert(key.duplicate(), t);
        },
        None => {
            if status.should_track_timing() {
                let mut t = AgentTiming::new(status, state_change_seq, now_ms);
                t.awaiting_sequence = true;
                timings.insert(key.duplicate(), t);
            }
        },
    }
}

/// Forgets all timing history, then observes the current agents afresh.
pub fn reset_local(timings: &mut TimingTable, agents: &Vec<AgentPane>, now_ms: u64)
    ensures
        final(timings).wf(),
        final(timings)@ == spec_update(Map::empty(), agents@, now_ms),
{
    timings.clear();
    update(timings, agents, now_ms);
}

/// Whether `incoming` is newer than `existing`: a later state change, or the
/// same one seen later.
pub open spec fn newer(incoming: AgentTiming, existing: AgentTiming) -> bool {
    incoming.state_change_seq > existing.state_change_seq || (incoming.state_change_seq
        == existing.state_change_seq && incoming.last_seen_ms > existing.last_seen_ms)
}

pub open spec fn spec_merge(m: Map<TimingKeyView, AgentTiming>, key: TimingKeyView, incoming: AgentTiming) -> Map<
    TimingKeyView,
    AgentTiming,
> {
    if !m.dom().contains(key) || newer(incoming, m[key]) {
        m.insert(key, incoming)
    } else {
        m
    }
}

/// Keeps the newer of the two timers of `key`.
pub fn merge_timing(timings: &mut TimingTable, key: AgentTimingKey, incoming: AgentTiming)
    requires
        old(timings).wf(),
    ensures
        final(timings).wf(),
        final(timings)@ == spec_merge(old(timings)@, key@, incoming),
{
    match timings.position(&key) {
        None => timings.insert(key, incoming),
        Some(p) => {
            let existing = timings.entries[p].1;
            if incoming.state_change_seq > existing.state_change_seq || (incoming.state_change_seq
                == existing.state_change_seq && incoming.last_seen_ms > existing.last_seen_ms) {
                timings.insert(key, incoming);
            }
        },
    }
}

/// The shared table after merging the local timers seen after the clear
/// watermark `cleared_at_ms`.
pub open spec fn merged_with_local(
    shared: Map<TimingKeyView, AgentTiming>,
    local: Map<TimingKeyView, AgentTiming>,
    cleared_at_ms: u64,
) -> Map<TimingKeyView, AgentTiming> {
    Map::new(
        |k: TimingKeyView| shared.dom().contains(k) || (local.dom().contains(k) && local[k].last_seen_ms
            > cleared_at_ms),
        |k: TimingKeyView|
            if local.dom().contains(k) && local[k].last_seen_ms > cleared_at_ms && (
            !shared.dom().contains(k) || newer(local[k], shared[k])) {
                local[k]
            } else {
                shared[k]
            },
    )
}

/// Merges into `shared` each local timer seen after `cleared_at_ms`, keeping the
/// newer timer of each key. A timer seen before the watermark is left out, so a
/// process that missed a clear cannot restore the cleared history.
pub fn merge_local_timings(shared: &mut TimingTable, local: &TimingTable, cleared_at_ms: u64)
    requires
        old(shared).wf(),
        local.wf(),
    ensures
        final(shared).wf(),
        final(shared)@ == merged_with_local(old(shared)@, local@, cleared_at_ms),
{
    let ghost s0 = shared@;
    let mut i: usize = 0;
    while i < local.entries.len()
        invariant
            i <= local.entries.len(),
            shared.wf(),
            local.wf(),
            shared@ == merged_with_local(s0, map_of(local.entries@.take(i as int)), cleared_at_ms),
        decreases local.entries.len() - i,
    {
        let ghost prefix = local.entries@.take(i as int);
        let ghost next = local.entries@.take(i + 1);
        assert(next.drop_last() =~= prefix);
        assert(distinct_keys(prefix));
        let (key, timing) = &local.entries[i];
        proof {
            crate::table::lemma_map_of_dom(prefix, key@);
            if map_of(prefix).dom().contains(key@) {
                let j = choose|j: int| 0 <= j < prefix.len() && prefix[j].0@ == key@;
                assert(local.entries@[j].0@ == local.entries@[i as int].0@);
            }
        }
        if timing.last_seen_ms > cleared_at_ms {
            merge_timing(shared, key.duplicate(), *timing);
        }
        assert(shared@ =~= merged_with_local(s0, map_of(next), cleared_at_ms));
        i = i + 1;
    }
    assert(local.entries@.take(local.entries.len() as int) =~= local.entries@);
}

/// Whether two timer tables hold the same timers.
pub fn same_timings(a: &TimingTable, b: &TimingTable) -> (r: bool)
    requires
        a.wf(),
        b.wf(),
    ensures
        r == (a@ == b@),
{
    if a.len() != b.len() {
        return false;
    }
    let mut i: usize = 0;
    while i < a.entries.len()
        invariant
            i <= a.entries.len(),
            a.wf(),
            b.wf(),
            a@.len() == b@.len(),
            forall|j: int|
                0 <= j < i ==> b@.dom().contains(#[trigger] a.entries@[j].0@) && b@[a.entries@[j].0@]
                    == a.entries@[j].1,
        decreases a.entries.len() - i,
    {
        match b.position(&a.entries[i].0) {
            None => {
                proof {
                    crate::table::lemma_map_of_index(a.entries@, i as int);
                }
                return false;
            },
            Some(p) => {
                if b.entries[p].1 != a.entries[i].1 {
                    proof {
                        crate::table::lemma_map_of_index(a.entries@, i as int);
                    }
                    return false;
                }
            },
        }
        i = i + 1;
    }
    proof {
        crate::table::lemma_map_of_finite_len(a.entries@);
        crate::table::lemma_map_of_finite_len(b.entries@);
        assert forall|k: TimingKeyView| #[trigger] a@.dom().contains(k) implies b@.dom().contains(k) && b@[k]
            == a@[k] by {
            crate::table::lemma_map_of_dom(a.entries@, k);
            let j = choose|j: int| 0 <= j < a.entries@.len() && a.entries@[j].0@ == k;
            crate::table::lemma_map_of_index(a.entries@, j);
            assert(b@.dom().contains(a.entries@[j].0@));
        }
        assert(a@.dom().subset_of(b@.dom()));
        vstd::set_lib::lemma_subset_equality(a@.dom(), b@.dom());
        assert(a@ =~= b@);
    }
    true
}

/// What the persistence worker handed back: the shared table and its clear watermark.
pub struct PersistedTimings {
    pub timings: TimingTable,
    pub cleared_at_ms: u64,
}

/// The persisted table with the local changes made since `submitted` laid over it.
pub open spec fn reconciled(
    local: Map<TimingKeyView, AgentTiming>,
    submitted: Map<TimingKeyView, AgentTiming>,
    persisted: Map<TimingKeyView, AgentTiming>,
    cleared_at_ms: u64,
) -> Map<TimingKeyView, AgentTiming> {
    merged_with_local(
        persisted,
        local.restrict(
            local.dom().filter(
                |k: TimingKeyView| !(submitted.dom().contains(k) && submitted[k] == local[k]),
            ),
        ),
        cleared_at_ms,
    )
}

/// Adopts what the persistence worker wrote, keeping local changes made after
/// the request was submitted. Reports whether the local table changed.
pub fn reconcile(local: &mut TimingTable, submitted: &TimingTable, persisted: PersistedTimings) -> (r:
    bool)
    requires
        old(local).wf(),
        submitted.wf(),
        persisted.timings.wf(),
    ensures
        final(local).wf(),
        final(local)@ == reconciled(
            old(local)@,
            submitted@,
            persisted.timings@,
            persisted.cleared_at_ms,
        ),
        r == (final(local)@ != old(local)@),
{
    let mut changes: TimingTable = KeyedTable::new();
    let mut i: usize = 0;
    while i < local.entries.len()
        invariant
            i <= local.entries.len(),
            local.wf(),
            submitted.wf(),
            changes.wf(),
            changes@ == local@.restrict(
                map_of(local.entries@.take(i as int)).dom().filter(
                    |k: TimingKeyView| !(submitted@.dom().contains(k) && submitted@[k] == local@[k]),
                ),
            ),
        decreases local.entries.len() - i,
    {
        let ghost prefix = local.entries@.take(i as int);
        let ghost next = local.entries@.take(i + 1);
        assert(next.drop_last() =~= prefix);
        let (key, timing) = &local.entries[i];
        proof {
            crate::table::lemma_map_of_index(local.entries@, i as int);
        }
        let unchanged = match submitted.position(key) {
            Some(p) => submitted.entries[p].1 == *timing,
            None => false,
        };
        if !unchanged {
            changes.insert(key.duplicate(), *timing);
        }
        proof {
            assert forall|k: TimingKeyView| #[trigger] map_of(next).dom().contains(k) <==> (map_of(
                prefix,
            ).dom().contains(k) || k == key@) by {
                crate::table::lemma_map_of_dom(next, k);
                crate::table::lemma_map_of_dom(prefix, k);
                if map_of(next).dom().contains(k) && k != key@ {
                    let j = choose|j: int| 0 <= j < next.len() && next[j].0@ == k;
                    assert(prefix[j] == next[j]);
                }
                if map_of(prefix).dom().contains(k) {
                    let j = choose|j: int| 0 <= j < prefix.len() && prefix[j].0@ == k;
                    assert(next[j] == prefix[j]);
                }
            }
        }
        assert(changes@ =~= local@.restrict(
            map_of(next).dom().filter(
                |k: TimingKeyView| !(submitted@.dom().contains(k) && submitted@[k] == local@[k]),
            ),
        ));
        i = i + 1;
    }
    assert(local.entries@.take(local.entries.len() as int) =~= local.entries@);
    let PersistedTimings { timings: mut merged, cleared_at_ms } = persisted;
    merge_local_timings(&mut merged, &changes, cleared_at_ms);
    if same_timings(local, &merged) {
        false
    } else {
        *local = merged;
        true
    }
}

/// The shared table a snapshot write stores, given what the index held.
pub fn prepare_sync(
    shared: &mut TimingTable,
    local: &TimingTable,
    agents: &Vec<AgentPane>,
    now_ms: u64,
    cleared_at_ms: u64,
)
    requires
        old(shared).wf(),
        local.wf(),
    ensures
        final(shared).wf(),
        exists|keys: Seq<AgentTimingKey>| #![auto]
            keys.len() == agents@.len() && (forall|i: int| 0 <= i < keys.len() ==> keys[i] == agents@[i].runtime.timing_key)
            && pruned(
                spec_update(
                    spec_migrate(merged_with_local(old(shared)@, local@, cleared_at_ms), agents@),
                    agents@,
                    now_ms,
                ),
                final(shared)@,
                keys,
            ),
{
    merge_local_timings(shared, local, cleared_at_ms);
    update_snapshot(shared, agents, now_ms);
}

/// The shared table a status write stores, given what the index held.
pub fn prepare_observe_status(
    shared: &mut TimingTable,
    local: &TimingTable,
    key: &AgentTimingKey,
    status: AgentStatus,
    state_change_seq: u64,
    now_ms: u64,
    cleared_at_ms: u64,
)
    requires
        old(shared).wf(),
        local.wf(),
    ensures
        final(shared).wf(),
        exists|keys: Seq<AgentTimingKey>|
            keys.len() == 1 && keys[0] == *key && pruned(
                spec_observe_status(
                    merged_with_local(old(shared)@, local@, cleared_at_ms),
                    key@,
                    status,
                    state_change_seq,
                    now_ms,
                ),
                final(shared)@,
                keys,
            ),
{
    merge_local_timings(shared, local, cleared_at_ms);
    observe_status_local(shared, key, status, state_change_seq, now_ms);
    let ghost mid = shared@;
    let mut keys: Vec<AgentTimingKey> = Vec::new();
    keys.push(key.duplicate());
    assert(keys@[0] == *key);
    prune(shared, &keys);
    assert(keys@.len() == 1 && keys@[0] == *key && pruned(mid, shared@, keys@));
}

/// How a timing index of a given version is read: `None` when its contents
/// are discarded, else whether it must be rewritten in the current version.
pub fn classify_index_version(version: u8) -> (r: Option<bool>)
    ensures
        r == (if version == 1 {
            Some(true)
        } else if version == 2 {
            Some(false)
        } else {
            None
        }),
{
    if version == 1 {
        Some(true)
    } else if version == 2 {
        Some(false)
    } else {
        None
    }
}

} // verus!
