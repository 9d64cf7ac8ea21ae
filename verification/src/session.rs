//! The state of Hunkle's Herdr session: the agents of the last snapshot, the
//! messages queued for them, their transcripts, timers and saved layouts, and
//! the stash. Work that talks to Herdr, OpenCode or the disk is handed out as
//! actions; its results come back as completions.
use vstd::prelude::*;
use crate::agent::{
    AgentPane, AgentSessionIdentity, AgentStatus, AgentTimingKey, OpenCodeConversationIdentity,
    TimingKeyView, agent_has_opencode_session, clone_opt_key, clone_opt_string, duplicate_agents,
    opt_is, opt_view, scheduled_conversation_identity, spec_agent_has_opencode_session, str_eq,
};
use crate::client::{AgentStatusEvent, Event, scheduler_agent_name, scheduler_run_agent_name};
use crate::keyed::{IdTable, TextTable, listed};
use crate::layout::{AgentLayout, DisplayAgentRequest, PaneLocations};
use crate::pending::{Operation, Request};
use crate::scheduler::{ScheduledRun, ScheduledTask};
use crate::stash::{AgentStashStore, StashedAgent};
use crate::table::{KeyedTable, Stamped, key_in, kept_from};
use crate::text::{append_str, u64_decimal};
use crate::timing::{
    AgentTimeDisplay, AgentTiming, PersistedTimings, TimingTable, observe_status_local, reconcile,
    reset_local, update_snapshot,
};
use crate::transcript::{AgentUserMessage, messages_view, same_messages};
use vstd::string::StringSliceAdditionalSpecFns;

verus! {

/// How often a snapshot is taken while nothing else asks for one.
pub const REFRESH_INTERVAL_MS: u64 = 2000;

/// How long a transcript is not fetched again after a fetch started.
pub const AGENT_MESSAGE_REFRESH_INTERVAL_MS: u64 = 1000;

/// How long each spinner frame shows.
pub const SPINNER_INTERVAL_MS: u64 = 80;

/// How many frames the spinner has.
pub const SPINNER_FRAME_COUNT: usize = 10;

/// The most saved agent layouts kept.
pub const MAX_AGENT_LAYOUTS: usize = 64;

/// The version of the saved layout index this library reads and writes.
pub const LAYOUT_INDEX_VERSION: u8 = 1;

/// The current time in milliseconds since the Unix epoch, saturated to `u64`.
#[verifier::external_body]
pub fn unix_time_ms() -> u64 {
    std::time::SystemTime::now().duration_since(std::time::UNIX_EPOCH).unwrap_or_default().as_millis().min(
        u128::from(u64::MAX),
    ) as u64
}

/// A Herdr workspace. Paths are held as text.
#[derive(Debug)]
pub struct HerdrWorkspace {
    pub id: String,
    pub label: String,
    pub path: Option<String>,
    pub branch: Option<String>,
    pub parent_workspace_id: Option<String>,
    pub repo_root: Option<String>,
    pub linked_worktree: bool,
}

/// When a message to an agent is delivered.
#[derive(Debug, Clone, Copy, PartialEq, Eq, Structural)]
pub enum AgentPromptDelivery {
    Immediately,
    OnIdle,
}

/// What became of a message to an agent.
#[derive(Debug, Clone, Copy, PartialEq, Eq, Structural)]
pub enum AgentPromptOutcome {
    Sending,
    Queued,
}

/// How an agent card is drawn.
#[derive(Debug, Clone, Copy)]
pub struct AgentEntryState {
    pub selected: bool,
}

/// What a poll of the session reports.
pub struct HerdrSessionPoll {
    pub changed: bool,
    pub notice: Option<String>,
    pub reopen_path: Option<String>,
    pub fullscreen_result: Option<Result<bool, String>>,
}

/// Which list the agent panel shows.
#[derive(Debug, Clone, Copy, PartialEq, Eq, Structural)]
pub enum AgentListMode {
    Agents,
    Scheduled,
    Stash,
}

impl AgentListMode {
    pub open spec fn spec_next(self) -> AgentListMode {
        match self {
            AgentListMode::Agents => AgentListMode::Scheduled,
            AgentListMode::Scheduled => AgentListMode::Stash,
            AgentListMode::Stash => AgentListMode::Agents,
        }
    }

    /// The list after this one, in a cycle of three.
    pub fn next(self) -> (r: Self)
        ensures
            r == self.spec_next(),
    {
        match self {
            AgentListMode::Agents => AgentListMode::Scheduled,
            AgentListMode::Scheduled => AgentListMode::Stash,
            AgentListMode::Stash => AgentListMode::Agents,
        }
    }
}

/// Three steps through the lists come back to the start.
pub proof fn lemma_list_mode_cycle(mode: AgentListMode)
    ensures
        mode.spec_next().spec_next().spec_next() == mode,
        mode.spec_next() != mode,
{
}

/// The identity by which a caller refers to an agent across snapshots.
#[derive(Debug)]
pub struct AgentKey(pub AgentTimingKey);

/// A fetched transcript and the revision it was stored under.
pub struct TranscriptEntry {
    pub revision: u64,
    pub messages: Vec<AgentUserMessage>,
}

/// An agent taken out of the list while its stashing is under way.
pub struct PendingAgentStash {
    pub agent: AgentPane,
    pub index: usize,
    pub repository: String,
    pub repository_label: String,
    pub worktree: String,
    pub branch: String,
}

/// An agent's saved layout and when it was last used.
pub struct SavedAgentLayout {
    pub layout: AgentLayout,
    pub last_used_ms: u64,
}

impl Stamped for SavedAgentLayout {
    open spec fn stamp(&self) -> u64 {
        self.last_used_ms
    }

    fn stamp_exec(&self) -> (r: u64) {
        self.last_used_ms
    }
}

/// The scheduler's tasks and runs as last loaded.
pub struct SchedulerView {
    pub tasks: Vec<ScheduledTask>,
    pub runs: Vec<ScheduledRun>,
}

/// What fetching a transcript gave.
pub enum TranscriptFetch {
    Changed(Vec<AgentUserMessage>),
    Unchanged,
}

/// What a layout exchange left: the displayed and parked layouts, and where
/// the moved panes now live.
#[derive(Debug)]
pub struct DisplayAgentResult {
    pub displayed: AgentLayout,
    pub parked: Option<AgentLayout>,
    pub pane_locations: PaneLocations,
}

/// The result of work the session handed out.
#[allow(inconsistent_fields)]
pub enum Completion {
    Snapshot { result: Result<(Vec<HerdrWorkspace>, Vec<AgentPane>), String>, observed_at_ms: u64 },
    Event { event: Event, observed_at_ms: u64 },
    AgentDisplay {
        result: Result<DisplayAgentResult, String>,
        selected_key: AgentTimingKey,
        outgoing_key: Option<AgentTimingKey>,
        reopen_path: Option<String>,
        host_workspace_id: String,
        host_tab_id: String,
        selected_workspace_id: String,
        selected_tab_id: String,
    },
    AgentStash { session_id: String, name: String, result: Result<(), String> },
    AgentStashIdentity { result: Result<AgentSessionIdentity, String> },
    Fullscreen { result: Result<bool, String> },
    LatestUserMessage { identity: OpenCodeConversationIdentity, result: Result<TranscriptFetch, String> },
    AgentPrompt { key: AgentTimingKey, result: Result<(), String> },
    ScheduledPrompt { run_id: i64, session_id: Option<String>, result: Result<(), String> },
    ScheduledSession { run_id: i64, result: Result<String, String> },
    ScheduledConversation {
        identity: OpenCodeConversationIdentity,
        result: Result<TranscriptFetch, String>,
    },
}

/// What the timing persistence worker reported.
pub enum TimingOutcome {
    /// A write finished, for the clear generation it was submitted in.
    Completed { clear_generation: u64, submitted: TimingTable, result: Result<PersistedTimings, String> },
    /// The worker is gone.
    Stopped,
}

/// Work the session hands out; its result comes back as a completion.
#[allow(inconsistent_fields)]
pub enum SessionAction {
    /// Take a snapshot of Herdr's workspaces and agents.
    StartSnapshot,
    /// Send a message to an agent's pane.
    PromptAgent { key: AgentTimingKey, pane_id: String, prompt: String },
    /// Send a message to the agent of a scheduled run.
    PromptScheduledRun { run_id: i64, session_id: Option<String>, pane_id: String, prompt: String },
    /// Fetch an OpenCode transcript for an agent card.
    FetchTranscript { identity: OpenCodeConversationIdentity, allow_unchanged: bool },
    /// Fetch the OpenCode transcript of a scheduled run.
    FetchScheduledConversation { identity: OpenCodeConversationIdentity },
    /// Find the OpenCode session a scheduled run started.
    ResolveScheduledSession { run_id: i64, directory: String, prompt: String, run_created_at_ms: i64 },
    /// Find the OpenCode session of an agent that did not report it.
    ResolveStashIdentity { worktree: String, title: String },
    /// Close a stashed agent's pane.
    ClosePane { pane_id: String, session_id: String, name: String },
    /// Toggle the zoom of Hunkle's pane.
    ToggleZoom { pane_id: String },
    /// Exchange an agent's layout with Hunkle's tab.
    DisplayAgent {
        request: DisplayAgentRequest,
        selected_key: AgentTimingKey,
        outgoing_key: Option<AgentTimingKey>,
        reopen_path: Option<String>,
        host_workspace_id: String,
        host_tab_id: String,
        selected_workspace_id: String,
        selected_tab_id: String,
    },
    /// Save the agent layouts.
    SaveLayouts,
    /// Write agent timing history.
    PersistTimings(Request),
    /// Record the agent a legacy scheduled run runs in.
    BindScheduledAgent { run_id: i64, pane_id: String, terminal_id: String },
    /// Record the OpenCode session of a scheduled run.
    BindScheduledSession { run_id: i64, session_id: String },
    /// Stop the scheduler and the timing persistence worker.
    Shutdown,
    /// Load the saved agent layouts from the file at `path`.
    LoadLayouts { path: String },
    /// Listen to Herdr's events.
    StartEventListener,
    /// Open the scheduler.
    OpenScheduler,
}

/// A workspace whose path may be a linked worktree.
pub struct LinkedWorktreeCandidate {
    pub path: String,
}

/// The workspaces whose paths may be linked worktrees.
pub struct LinkedWorktreeObservation {
    pub candidates: Vec<LinkedWorktreeCandidate>,
}

/// The session. `W` saves the stash.
pub struct HerdrSession<W: Fn(&Vec<StashedAgent>) -> Result<(), String>> {
    pub enabled: bool,
    pub workspaces: Vec<HerdrWorkspace>,
    pub agents: Vec<AgentPane>,
    pub observed_agents: Vec<AgentPane>,
    pub agent_scroll: usize,
    pub loading: bool,
    pub error: Option<String>,
    pub host_workspace_id: Option<String>,
    pub host_tab_id: Option<String>,
    pub host_pane_id: Option<String>,
    pub cross_workspace_agents: bool,
    pub agent_display_running: bool,
    pub fullscreen_running: bool,
    pub fullscreen: bool,
    pub latest_user_messages: TextTable<TranscriptEntry>,
    pub transcript_revision: u64,
    pub latest_user_message_requests: TextTable<()>,
    pub latest_user_message_refreshes: TextTable<u64>,
    pub latest_user_message_statuses: TextTable<AgentStatus>,
    pub latest_user_message_errors: TextTable<String>,
    pub agent_prompt_requests: KeyedTable<()>,
    pub agent_prompts_on_idle: KeyedTable<String>,
    pub agent_prompt_errors: KeyedTable<String>,
    pub scheduled_prompt_requests: IdTable<()>,
    pub scheduled_prompt_errors: IdTable<String>,
    pub agent_prompt_notice: Option<String>,
    pub scheduled_preview_identity: Option<OpenCodeConversationIdentity>,
    pub scheduled_session_requests: IdTable<()>,
    pub scheduled_session_refreshes: IdTable<u64>,
    pub scheduled_session_errors: IdTable<String>,
    pub scheduled_conversation_errors: TextTable<String>,
    pub next_refresh_ms: u64,
    pub spinner_frame: usize,
    pub next_spinner_ms: u64,
    pub agent_timings: TimingTable,
    pub agent_timing_persisted: bool,
    pub agent_timing_clear_generation: u64,
    pub agent_timing_persistence_notice: Option<String>,
    pub agent_layouts: KeyedTable<SavedAgentLayout>,
    pub agent_layouts_persisted: bool,
    pub displayed_agent_key: Option<AgentTimingKey>,
    pub stash: AgentStashStore,
    pub stash_writer: W,
    pub agent_list_mode: AgentListMode,
    pub stash_scroll: usize,
    pub scheduled_run_scroll: usize,
    pub agent_stash_running: bool,
    pub pending_agent_stash: Option<PendingAgentStash>,
    pub stashed_pane_ids: Vec<String>,
    pub scheduler: Option<SchedulerView>,
    pub scheduler_error: Option<String>,
    pub actions: Vec<SessionAction>,
}

/// Whether an agent's pane lives in the tab `workspace_id`/`tab_id`.
pub open spec fn in_tab(agent: AgentPane, workspace_id: Option<String>, tab_id: Option<String>) -> bool {
    opt_view(workspace_id) == Some(agent.workspace_id@) && opt_view(tab_id) == Some(agent.tab_id@)
}

/// Whether two agents share a tab.
pub open spec fn same_tab(a: AgentPane, b: AgentPane) -> bool {
    a.workspace_id@ == b.workspace_id@ && a.tab_id@ == b.tab_id@
}

/// The conversation id of an agent's OpenCode session, if it reports one.
pub open spec fn conversation_of(agent: AgentPane) -> Option<Seq<char>> {
    match agent.runtime.session_timing_key {
        Some(AgentTimingKey::Session(identity)) => if identity.agent@ == "opencode"@ {
            Some(identity.value@)
        } else {
            None
        },
        _ => None,
    }
}

impl<W: Fn(&Vec<StashedAgent>) -> Result<(), String>> HerdrSession<W> {
    /// The sessions differ at most in their prompt tables and actions.
    pub open spec fn same_but_prompts(o: Self, n: Self) -> bool {
        &&& o.enabled == n.enabled
        &&& o.workspaces == n.workspaces
        &&& o.agents == n.agents
        &&& o.observed_agents == n.observed_agents
        &&& o.agent_scroll == n.agent_scroll
        &&& o.loading == n.loading
        &&& o.error == n.error
        &&& o.host_workspace_id == n.host_workspace_id
        &&& o.host_tab_id == n.host_tab_id
        &&& o.host_pane_id == n.host_pane_id
        &&& o.cross_workspace_agents == n.cross_workspace_agents
        &&& o.agent_display_running == n.agent_display_running
        &&& o.fullscreen_running == n.fullscreen_running
        &&& o.fullscreen == n.fullscreen
        &&& o.latest_user_messages == n.latest_user_messages
        &&& o.transcript_revision == n.transcript_revision
        &&& o.latest_user_message_requests == n.latest_user_message_requests
        &&& o.latest_user_message_refreshes == n.latest_user_message_refreshes
        &&& o.latest_user_message_statuses == n.latest_user_message_statuses
        &&& o.latest_user_message_errors == n.latest_user_message_errors
        &&& o.scheduled_prompt_requests == n.scheduled_prompt_requests
        &&& o.scheduled_prompt_errors == n.scheduled_prompt_errors
        &&& o.agent_prompt_notice == n.agent_prompt_notice
        &&& o.scheduled_preview_identity == n.scheduled_preview_identity
        &&& o.scheduled_session_requests == n.scheduled_session_requests
        &&& o.scheduled_session_refreshes == n.scheduled_session_refreshes
        &&& o.scheduled_session_errors == n.scheduled_session_errors
        &&& o.scheduled_conversation_errors == n.scheduled_conversation_errors
        &&& o.next_refresh_ms == n.next_refresh_ms
        &&& o.spinner_frame == n.spinner_frame
        &&& o.next_spinner_ms == n.next_spinner_ms
        &&& o.agent_timings == n.agent_timings
        &&& o.agent_timing_persisted == n.agent_timing_persisted
        &&& o.agent_timing_clear_generation == n.agent_timing_clear_generation
        &&& o.agent_timing_persistence_notice == n.agent_timing_persistence_notice
        &&& o.agent_layouts == n.agent_layouts
        &&& o.agent_layouts_persisted == n.agent_layouts_persisted
        &&& o.displayed_agent_key == n.displayed_agent_key
        &&& o.stash == n.stash
        &&& o.stash_writer == n.stash_writer
        &&& o.agent_list_mode == n.agent_list_mode
        &&& o.stash_scroll == n.stash_scroll
        &&& o.scheduled_run_scroll == n.scheduled_run_scroll
        &&& o.agent_stash_running == n.agent_stash_running
        &&& o.pending_agent_stash == n.pending_agent_stash
        &&& o.stashed_pane_ids == n.stashed_pane_ids
        &&& o.scheduler == n.scheduler
        &&& o.scheduler_error == n.scheduler_error
    }

    /// The sessions differ at most in the displayed agent.
    pub open spec fn same_but_displayed(o: Self, n: Self) -> bool {
        &&& o.enabled == n.enabled
        &&& o.workspaces == n.workspaces
        &&& o.agents == n.agents
        &&& o.observed_agents == n.observed_agents
        &&& o.agent_scroll == n.agent_scroll
        &&& o.loading == n.loading
        &&& o.error == n.error
        &&& o.host_workspace_id == n.host_workspace_id
        &&& o.host_tab_id == n.host_tab_id
        &&& o.host_pane_id == n.host_pane_id
        &&& o.cross_workspace_agents == n.cross_workspace_agents
        &&& o.agent_display_running == n.agent_display_running
        &&& o.fullscreen_running == n.fullscreen_running
        &&& o.fullscreen == n.fullscreen
        &&& o.latest_user_messages == n.latest_user_messages
        &&& o.transcript_revision == n.transcript_revision
        &&& o.latest_user_message_requests == n.latest_user_message_requests
        &&& o.latest_user_message_refreshes == n.latest_user_message_refreshes
        &&& o.latest_user_message_statuses == n.latest_user_message_statuses
        &&& o.latest_user_message_errors == n.latest_user_message_errors
        &&& o.agent_prompt_requests == n.agent_prompt_requests
        &&& o.agent_prompts_on_idle == n.agent_prompts_on_idle
        &&& o.agent_prompt_errors == n.agent_prompt_errors
        &&& o.scheduled_prompt_requests == n.scheduled_prompt_requests
        &&& o.scheduled_prompt_errors == n.scheduled_prompt_errors
        &&& o.agent_prompt_notice == n.agent_prompt_notice
        &&& o.scheduled_preview_identity == n.scheduled_preview_identity
        &&& o.scheduled_session_requests == n.scheduled_session_requests
        &&& o.scheduled_session_refreshes == n.scheduled_session_refreshes
        &&& o.scheduled_session_errors == n.scheduled_session_errors
        &&& o.scheduled_conversation_errors == n.scheduled_conversation_errors
        &&& o.next_refresh_ms == n.next_refresh_ms
        &&& o.spinner_frame == n.spinner_frame
        &&& o.next_spinner_ms == n.next_spinner_ms
        &&& o.agent_timings == n.agent_timings
        &&& o.agent_timing_persisted == n.agent_timing_persisted
        &&& o.agent_timing_clear_generation == n.agent_timing_clear_generation
        &&& o.agent_timing_persistence_notice == n.agent_timing_persistence_notice
        &&& o.agent_layouts == n.agent_layouts
        &&& o.agent_layouts_persisted == n.agent_layouts_persisted
        &&& o.stash == n.stash
        &&& o.stash_writer == n.stash_writer
        &&& o.agent_list_mode == n.agent_list_mode
        &&& o.stash_scroll == n.stash_scroll
        &&& o.scheduled_run_scroll == n.scheduled_run_scroll
        &&& o.agent_stash_running == n.agent_stash_running
        &&& o.pending_agent_stash == n.pending_agent_stash
        &&& o.stashed_pane_ids == n.stashed_pane_ids
        &&& o.scheduler == n.scheduler
        &&& o.scheduler_error == n.scheduler_error
        &&& o.actions == n.actions
    }

    /// The sessions differ at most in their saved layouts.
    pub open spec fn same_but_layouts(o: Self, n: Self) -> bool {
        &&& o.enabled == n.enabled
        &&& o.workspaces == n.workspaces
        &&& o.agents == n.agents
        &&& o.observed_agents == n.observed_agents
        &&& o.agent_scroll == n.agent_scroll
        &&& o.loading == n.loading
        &&& o.error == n.error
        &&& o.host_workspace_id == n.host_workspace_id
        &&& o.host_tab_id == n.host_tab_id
        &&& o.host_pane_id == n.host_pane_id
        &&& o.cross_workspace_agents == n.cross_workspace_agents
        &&& o.agent_display_running == n.agent_display_running
        &&& o.fullscreen_running == n.fullscreen_running
        &&& o.fullscreen == n.fullscreen
        &&& o.latest_user_messages == n.latest_user_messages
        &&& o.transcript_revision == n.transcript_revision
        &&& o.latest_user_message_requests == n.latest_user_message_requests
        &&& o.latest_user_message_refreshes == n.latest_user_message_refreshes
        &&& o.latest_user_message_statuses == n.latest_user_message_statuses
        &&& o.latest_user_message_errors == n.latest_user_message_errors
        &&& o.agent_prompt_requests == n.agent_prompt_requests
        &&& o.agent_prompts_on_idle == n.agent_prompts_on_idle
        &&& o.agent_prompt_errors == n.agent_prompt_errors
        &&& o.scheduled_prompt_requests == n.scheduled_prompt_requests
        &&& o.scheduled_prompt_errors == n.scheduled_prompt_errors
        &&& o.agent_prompt_notice == n.agent_prompt_notice
        &&& o.scheduled_preview_identity == n.scheduled_preview_identity
        &&& o.scheduled_session_requests == n.scheduled_session_requests
        &&& o.scheduled_session_refreshes == n.scheduled_session_refreshes
        &&& o.scheduled_session_errors == n.scheduled_session_errors
        &&& o.scheduled_conversation_errors == n.scheduled_conversation_errors
        &&& o.next_refresh_ms == n.next_refresh_ms
        &&& o.spinner_frame == n.spinner_frame
        &&& o.next_spinner_ms == n.next_spinner_ms
        &&& o.agent_timings == n.agent_timings
        &&& o.agent_timing_persisted == n.agent_timing_persisted
        &&& o.agent_timing_clear_generation == n.agent_timing_clear_generation
        &&& o.agent_timing_persistence_notice == n.agent_timing_persistence_notice
        &&& o.agent_layouts_persisted == n.agent_layouts_persisted
        &&& o.displayed_agent_key == n.displayed_agent_key
        &&& o.stash == n.stash
        &&& o.stash_writer == n.stash_writer
        &&& o.agent_list_mode == n.agent_list_mode
        &&& o.stash_scroll == n.stash_scroll
        &&& o.scheduled_run_scroll == n.scheduled_run_scroll
        &&& o.agent_stash_running == n.agent_stash_running
        &&& o.pending_agent_stash == n.pending_agent_stash
        &&& o.stashed_pane_ids == n.stashed_pane_ids
        &&& o.scheduler == n.scheduler
        &&& o.scheduler_error == n.scheduler_error
        &&& o.actions == n.actions
    }

    /// The sessions differ at most in their scheduler view and actions.
    pub open spec fn same_but_scheduler_and_actions(o: Self, n: Self) -> bool {
        &&& o.enabled == n.enabled
        &&& o.workspaces == n.workspaces
        &&& o.agents == n.agents
        &&& o.observed_agents == n.observed_agents
        &&& o.agent_scroll == n.agent_scroll
        &&& o.loading == n.loading
        &&& o.error == n.error
        &&& o.host_workspace_id == n.host_workspace_id
        &&& o.host_tab_id == n.host_tab_id
        &&& o.host_pane_id == n.host_pane_id
        &&& o.cross_workspace_agents == n.cross_workspace_agents
        &&& o.agent_display_running == n.agent_display_running
        &&& o.fullscreen_running == n.fullscreen_running
        &&& o.fullscreen == n.fullscreen
        &&& o.latest_user_messages == n.latest_user_messages
        &&& o.transcript_revision == n.transcript_revision
        &&& o.latest_user_message_requests == n.latest_user_message_requests
        &&& o.latest_user_message_refreshes == n.latest_user_message_refreshes
        &&& o.latest_user_message_statuses == n.latest_user_message_statuses
        &&& o.latest_user_message_errors == n.latest_user_message_errors
        &&& o.agent_prompt_requests == n.agent_prompt_requests
        &&& o.agent_prompts_on_idle == n.agent_prompts_on_idle
        &&& o.agent_prompt_errors == n.agent_prompt_errors
        &&& o.scheduled_prompt_requests == n.scheduled_prompt_requests
        &&& o.scheduled_prompt_errors == n.scheduled_prompt_errors
        &&& o.agent_prompt_notice == n.agent_prompt_notice
        &&& o.scheduled_preview_identity == n.scheduled_preview_identity
        &&& o.scheduled_session_requests == n.scheduled_session_requests
        &&& o.scheduled_session_refreshes == n.scheduled_session_refreshes
        &&& o.scheduled_session_errors == n.scheduled_session_errors
        &&& o.scheduled_conversation_errors == n.scheduled_conversation_errors
        &&& o.next_refresh_ms == n.next_refresh_ms
        &&& o.spinner_frame == n.spinner_frame
        &&& o.next_spinner_ms == n.next_spinner_ms
        &&& o.agent_timings == n.agent_timings
        &&& o.agent_timing_persisted == n.agent_timing_persisted
        &&& o.agent_timing_clear_generation == n.agent_timing_clear_generation
        &&& o.agent_timing_persistence_notice == n.agent_timing_persistence_notice
        &&& o.displayed_agent_key == n.displayed_agent_key
        &&& o.stash == n.stash
        &&& o.stash_writer == n.stash_writer
        &&& o.agent_list_mode == n.agent_list_mode
        &&& o.stash_scroll == n.stash_scroll
        &&& o.scheduled_run_scroll == n.scheduled_run_scroll
        &&& o.agent_stash_running == n.agent_stash_running
        &&& o.pending_agent_stash == n.pending_agent_stash
        &&& o.stashed_pane_ids == n.stashed_pane_ids
        &&& o.scheduler_error == n.scheduler_error
        &&& o.agent_layouts == n.agent_layouts
        &&& o.agent_layouts_persisted == n.agent_layouts_persisted
    }

    /// The sessions differ at most in their stash and actions.
    pub open spec fn same_but_stash_and_actions(o: Self, n: Self) -> bool {
        &&& o.enabled == n.enabled
        &&& o.workspaces == n.workspaces
        &&& o.agents == n.agents
        &&& o.observed_agents == n.observed_agents
        &&& o.agent_scroll == n.agent_scroll
        &&& o.loading == n.loading
        &&& o.error == n.error
        &&& o.host_workspace_id == n.host_workspace_id
        &&& o.host_tab_id == n.host_tab_id
        &&& o.host_pane_id == n.host_pane_id
        &&& o.cross_workspace_agents == n.cross_workspace_agents
        &&& o.agent_display_running == n.agent_display_running
        &&& o.fullscreen_running == n.fullscreen_running
        &&& o.fullscreen == n.fullscreen
        &&& o.latest_user_messages == n.latest_user_messages
        &&& o.transcript_revision == n.transcript_revision
        &&& o.latest_user_message_requests == n.latest_user_message_requests
        &&& o.latest_user_message_refreshes == n.latest_user_message_refreshes
        &&& o.latest_user_message_statuses == n.latest_user_message_statuses
        &&& o.latest_user_message_errors == n.latest_user_message_errors
        &&& o.agent_prompt_requests == n.agent_prompt_requests
        &&& o.agent_prompts_on_idle == n.agent_prompts_on_idle
        &&& o.agent_prompt_errors == n.agent_prompt_errors
        &&& o.scheduled_prompt_requests == n.scheduled_prompt_requests
        &&& o.scheduled_prompt_errors == n.scheduled_prompt_errors
        &&& o.agent_prompt_notice == n.agent_prompt_notice
        &&& o.scheduled_preview_identity == n.scheduled_preview_identity
        &&& o.scheduled_session_requests == n.scheduled_session_requests
        &&& o.scheduled_session_refreshes == n.scheduled_session_refreshes
        &&& o.scheduled_session_errors == n.scheduled_session_errors
        &&& o.scheduled_conversation_errors == n.scheduled_conversation_errors
        &&& o.next_refresh_ms == n.next_refresh_ms
        &&& o.spinner_frame == n.spinner_frame
        &&& o.next_spinner_ms == n.next_spinner_ms
        &&& o.agent_timings == n.agent_timings
        &&& o.agent_timing_persisted == n.agent_timing_persisted
        &&& o.agent_timing_clear_generation == n.agent_timing_clear_generation
        &&& o.agent_timing_persistence_notice == n.agent_timing_persistence_notice
        &&& o.agent_layouts == n.agent_layouts
        &&& o.agent_layouts_persisted == n.agent_layouts_persisted
        &&& o.displayed_agent_key == n.displayed_agent_key
        &&& o.stash_writer == n.stash_writer
        &&& o.agent_list_mode == n.agent_list_mode
        &&& o.stash_scroll == n.stash_scroll
        &&& o.scheduled_run_scroll == n.scheduled_run_scroll
        &&& o.agent_stash_running == n.agent_stash_running
        &&& o.pending_agent_stash == n.pending_agent_stash
        &&& o.stashed_pane_ids == n.stashed_pane_ids
        &&& o.scheduler == n.scheduler
        &&& o.scheduler_error == n.scheduler_error
    }

    /// The sessions differ at most in their agents and the pending stash.
    pub open spec fn same_but_agents_and_pending(o: Self, n: Self) -> bool {
        &&& o.enabled == n.enabled
        &&& o.workspaces == n.workspaces
        &&& o.observed_agents == n.observed_agents
        &&& o.agent_scroll == n.agent_scroll
        &&& o.loading == n.loading
        &&& o.error == n.error
        &&& o.host_workspace_id == n.host_workspace_id
        &&& o.host_tab_id == n.host_tab_id
        &&& o.host_pane_id == n.host_pane_id
        &&& o.cross_workspace_agents == n.cross_workspace_agents
        &&& o.agent_display_running == n.agent_display_running
        &&& o.fullscreen_running == n.fullscreen_running
        &&& o.fullscreen == n.fullscreen
        &&& o.latest_user_messages == n.latest_user_messages
        &&& o.transcript_revision == n.transcript_revision
        &&& o.latest_user_message_requests == n.latest_user_message_requests
        &&& o.latest_user_message_refreshes == n.latest_user_message_refreshes
        &&& o.latest_user_message_statuses == n.latest_user_message_statuses
        &&& o.latest_user_message_errors == n.latest_user_message_errors
        &&& o.agent_prompt_requests == n.agent_prompt_requests
        &&& o.agent_prompts_on_idle == n.agent_prompts_on_idle
        &&& o.agent_prompt_errors == n.agent_prompt_errors
        &&& o.scheduled_prompt_requests == n.scheduled_prompt_requests
        &&& o.scheduled_prompt_errors == n.scheduled_prompt_errors
        &&& o.agent_prompt_notice == n.agent_prompt_notice
        &&& o.scheduled_preview_identity == n.scheduled_preview_identity
        &&& o.scheduled_session_requests == n.scheduled_session_requests
        &&& o.scheduled_session_refreshes == n.scheduled_session_refreshes
        &&& o.scheduled_session_errors == n.scheduled_session_errors
        &&& o.scheduled_conversation_errors == n.scheduled_conversation_errors
        &&& o.next_refresh_ms == n.next_refresh_ms
        &&& o.spinner_frame == n.spinner_frame
        &&& o.next_spinner_ms == n.next_spinner_ms
        &&& o.agent_timings == n.agent_timings
        &&& o.agent_timing_persisted == n.agent_timing_persisted
        &&& o.agent_timing_clear_generation == n.agent_timing_clear_generation
        &&& o.agent_timing_persistence_notice == n.agent_timing_persistence_notice
        &&& o.agent_layouts == n.agent_layouts
        &&& o.agent_layouts_persisted == n.agent_layouts_persisted
        &&& o.displayed_agent_key == n.displayed_agent_key
        &&& o.stash == n.stash
        &&& o.stash_writer == n.stash_writer
        &&& o.agent_list_mode == n.agent_list_mode
        &&& o.stash_scroll == n.stash_scroll
        &&& o.scheduled_run_scroll == n.scheduled_run_scroll
        &&& o.agent_stash_running == n.agent_stash_running
        &&& o.stashed_pane_ids == n.stashed_pane_ids
        &&& o.scheduler == n.scheduler
        &&& o.scheduler_error == n.scheduler_error
        &&& o.actions == n.actions
    }

    /// The sessions differ at most in their stored transcripts.
    pub open spec fn same_but_transcripts(o: Self, n: Self) -> bool {
        &&& o.enabled == n.enabled
        &&& o.workspaces == n.workspaces
        &&& o.agents == n.agents
        &&& o.observed_agents == n.observed_agents
        &&& o.agent_scroll == n.agent_scroll
        &&& o.loading == n.loading
        &&& o.error == n.error
        &&& o.host_workspace_id == n.host_workspace_id
        &&& o.host_tab_id == n.host_tab_id
        &&& o.host_pane_id == n.host_pane_id
        &&& o.cross_workspace_agents == n.cross_workspace_agents
        &&& o.agent_display_running == n.agent_display_running
        &&& o.fullscreen_running == n.fullscreen_running
        &&& o.fullscreen == n.fullscreen
        &&& o.latest_user_message_requests == n.latest_user_message_requests
        &&& o.latest_user_message_refreshes == n.latest_user_message_refreshes
        &&& o.latest_user_message_statuses == n.latest_user_message_statuses
        &&& o.latest_user_message_errors == n.latest_user_message_errors
        &&& o.agent_prompt_requests == n.agent_prompt_requests
        &&& o.agent_prompts_on_idle == n.agent_prompts_on_idle
        &&& o.agent_prompt_errors == n.agent_prompt_errors
        &&& o.scheduled_prompt_requests == n.scheduled_prompt_requests
        &&& o.scheduled_prompt_errors == n.scheduled_prompt_errors
        &&& o.agent_prompt_notice == n.agent_prompt_notice
        &&& o.scheduled_preview_identity == n.scheduled_preview_identity
        &&& o.scheduled_session_requests == n.scheduled_session_requests
        &&& o.scheduled_session_refreshes == n.scheduled_session_refreshes
        &&& o.scheduled_session_errors == n.scheduled_session_errors
        &&& o.scheduled_conversation_errors == n.scheduled_conversation_errors
        &&& o.next_refresh_ms == n.next_refresh_ms
        &&& o.spinner_frame == n.spinner_frame
        &&& o.next_spinner_ms == n.next_spinner_ms
        &&& o.agent_timings == n.agent_timings
        &&& o.agent_timing_persisted == n.agent_timing_persisted
        &&& o.agent_timing_clear_generation == n.agent_timing_clear_generation
        &&& o.agent_timing_persistence_notice == n.agent_timing_persistence_notice
        &&& o.agent_layouts == n.agent_layouts
        &&& o.agent_layouts_persisted == n.agent_layouts_persisted
        &&& o.displayed_agent_key == n.displayed_agent_key
        &&& o.stash == n.stash
        &&& o.stash_writer == n.stash_writer
        &&& o.agent_list_mode == n.agent_list_mode
        &&& o.stash_scroll == n.stash_scroll
        &&& o.scheduled_run_scroll == n.scheduled_run_scroll
        &&& o.agent_stash_running == n.agent_stash_running
        &&& o.pending_agent_stash == n.pending_agent_stash
        &&& o.stashed_pane_ids == n.stashed_pane_ids
        &&& o.scheduler == n.scheduler
        &&& o.scheduler_error == n.scheduler_error
        &&& o.actions == n.actions
    }

    /// The sessions differ at most in the conversation fetches under way and the preview.
    pub open spec fn same_but_conversation_requests(o: Self, n: Self) -> bool {
        &&& o.enabled == n.enabled
        &&& o.workspaces == n.workspaces
        &&& o.agents == n.agents
        &&& o.observed_agents == n.observed_agents
        &&& o.agent_scroll == n.agent_scroll
        &&& o.loading == n.loading
        &&& o.error == n.error
        &&& o.host_workspace_id == n.host_workspace_id
        &&& o.host_tab_id == n.host_tab_id
        &&& o.host_pane_id == n.host_pane_id
        &&& o.cross_workspace_agents == n.cross_workspace_agents
        &&& o.agent_display_running == n.agent_display_running
        &&& o.fullscreen_running == n.fullscreen_running
        &&& o.fullscreen == n.fullscreen
        &&& o.latest_user_messages == n.latest_user_messages
        &&& o.transcript_revision == n.transcript_revision
        &&& o.latest_user_message_statuses == n.latest_user_message_statuses
        &&& o.latest_user_message_errors == n.latest_user_message_errors
        &&& o.agent_prompt_requests == n.agent_prompt_requests
        &&& o.agent_prompts_on_idle == n.agent_prompts_on_idle
        &&& o.agent_prompt_errors == n.agent_prompt_errors
        &&& o.scheduled_prompt_requests == n.scheduled_prompt_requests
        &&& o.scheduled_prompt_errors == n.scheduled_prompt_errors
        &&& o.agent_prompt_notice == n.agent_prompt_notice
        &&& o.scheduled_session_requests == n.scheduled_session_requests
        &&& o.scheduled_session_refreshes == n.scheduled_session_refreshes
        &&& o.scheduled_session_errors == n.scheduled_session_errors
        &&& o.next_refresh_ms == n.next_refresh_ms
        &&& o.spinner_frame == n.spinner_frame
        &&& o.next_spinner_ms == n.next_spinner_ms
        &&& o.agent_timings == n.agent_timings
        &&& o.agent_timing_persisted == n.agent_timing_persisted
        &&& o.agent_timing_clear_generation == n.agent_timing_clear_generation
        &&& o.agent_timing_persistence_notice == n.agent_timing_persistence_notice
        &&& o.agent_layouts == n.agent_layouts
        &&& o.agent_layouts_persisted == n.agent_layouts_persisted
        &&& o.displayed_agent_key == n.displayed_agent_key
        &&& o.stash == n.stash
        &&& o.stash_writer == n.stash_writer
        &&& o.agent_list_mode == n.agent_list_mode
        &&& o.stash_scroll == n.stash_scroll
        &&& o.scheduled_run_scroll == n.scheduled_run_scroll
        &&& o.agent_stash_running == n.agent_stash_running
        &&& o.pending_agent_stash == n.pending_agent_stash
        &&& o.stashed_pane_ids == n.stashed_pane_ids
        &&& o.scheduler == n.scheduler
        &&& o.scheduler_error == n.scheduler_error
    }

    /// The sessions agree on everything a snapshot does not change.
    pub open spec fn same_after_snapshot(o: Self, n: Self) -> bool {
        &&& o.enabled == n.enabled
        &&& o.workspaces == n.workspaces
        &&& o.loading == n.loading
        &&& o.error == n.error
        &&& o.host_workspace_id == n.host_workspace_id
        &&& o.host_tab_id == n.host_tab_id
        &&& o.host_pane_id == n.host_pane_id
        &&& o.cross_workspace_agents == n.cross_workspace_agents
        &&& o.agent_display_running == n.agent_display_running
        &&& o.fullscreen_running == n.fullscreen_running
        &&& o.fullscreen == n.fullscreen
        &&& o.transcript_revision == n.transcript_revision
        &&& o.scheduled_prompt_requests == n.scheduled_prompt_requests
        &&& o.scheduled_prompt_errors == n.scheduled_prompt_errors
        &&& o.scheduled_preview_identity == n.scheduled_preview_identity
        &&& o.scheduled_session_requests == n.scheduled_session_requests
        &&& o.scheduled_session_refreshes == n.scheduled_session_refreshes
        &&& o.scheduled_session_errors == n.scheduled_session_errors
        &&& o.next_refresh_ms == n.next_refresh_ms
        &&& o.spinner_frame == n.spinner_frame
        &&& o.next_spinner_ms == n.next_spinner_ms
        &&& o.agent_timing_persisted == n.agent_timing_persisted
        &&& o.agent_timing_clear_generation == n.agent_timing_clear_generation
        &&& o.agent_timing_persistence_notice == n.agent_timing_persistence_notice
        &&& o.agent_layouts_persisted == n.agent_layouts_persisted
        &&& o.stash_writer == n.stash_writer
        &&& o.agent_list_mode == n.agent_list_mode
        &&& o.stash_scroll == n.stash_scroll
        &&& o.scheduled_run_scroll == n.scheduled_run_scroll
        &&& o.agent_stash_running == n.agent_stash_running
        &&& o.pending_agent_stash == n.pending_agent_stash
        &&& o.scheduler_error == n.scheduler_error
    }

    /// The sessions agree on their settings and the notices only a poll takes.
    pub open spec fn same_settings(o: Self, n: Self) -> bool {
        &&& o.enabled == n.enabled
        &&& o.host_workspace_id == n.host_workspace_id
        &&& o.host_tab_id == n.host_tab_id
        &&& o.host_pane_id == n.host_pane_id
        &&& o.agent_timing_persisted == n.agent_timing_persisted
        &&& o.agent_layouts_persisted == n.agent_layouts_persisted
        &&& o.scheduler_error == n.scheduler_error
        &&& o.agent_timing_persistence_notice == n.agent_timing_persistence_notice
    }

    /// The session's tables are consistent, and the stash writer may always be called.
    pub open spec fn wf(&self) -> bool {
        &&& self.latest_user_messages.wf()
        &&& self.latest_user_message_requests.wf()
        &&& self.latest_user_message_refreshes.wf()
        &&& self.latest_user_message_statuses.wf()
        &&& self.latest_user_message_errors.wf()
        &&& self.agent_prompt_requests.wf()
        &&& self.agent_prompts_on_idle.wf()
        &&& self.agent_prompt_errors.wf()
        &&& self.scheduled_prompt_requests.wf()
        &&& self.scheduled_prompt_errors.wf()
        &&& self.scheduled_session_requests.wf()
        &&& self.scheduled_session_refreshes.wf()
        &&& self.scheduled_session_errors.wf()
        &&& self.scheduled_conversation_errors.wf()
        &&& self.agent_timings.wf()
        &&& self.agent_layouts.wf()
        &&& self.spinner_frame < SPINNER_FRAME_COUNT
        &&& forall|v: &Vec<StashedAgent>| #[trigger] self.stash_writer.requires((v,))
    }

    /// A session with nothing observed yet. `timings_persisted` tells whether
    /// timing history is written; the stash is as it was read.
    pub fn new(enabled: bool, timings_persisted: bool, stash: AgentStashStore, stash_writer: W) -> (r:
        Self)
        requires
            forall|v: &Vec<StashedAgent>| #[trigger] stash_writer.requires((v,)),
        ensures
            r.wf(),
            r.enabled == enabled,
            r.agents@.len() == 0,
            r.observed_agents@.len() == 0,
            r.agent_timing_persisted == (timings_persisted && enabled),
            !r.agent_layouts_persisted,
            r.agent_list_mode == AgentListMode::Agents,
            r.displayed_agent_key is None,
            r.host_workspace_id is None && r.host_tab_id is None && r.host_pane_id is None,
            !r.loading && !r.cross_workspace_agents && !r.agent_stash_running,
            !r.agent_display_running && !r.fullscreen_running && !r.fullscreen,
            r.next_refresh_ms == 0 && r.next_spinner_ms == 0 && r.spinner_frame == 0,
            r.agent_scroll == 0,
            r.agent_prompts_on_idle@.len() == 0,
            r.agent_layouts@.len() == 0,
            r.agent_timings@.len() == 0,
            r.latest_user_messages@.len() == 0,
            r.stash == stash,
            r.stash_writer == stash_writer,
            r.scheduler is None,
            r.actions@.len() == 0,
            r.workspaces@.len() == 0,
            r.error is None,
            r.transcript_revision == 0,
            r.latest_user_message_requests@ == Map::<Seq<char>, ()>::empty(),
            r.latest_user_message_refreshes@ == Map::<Seq<char>, u64>::empty(),
            r.latest_user_message_statuses@ == Map::<Seq<char>, AgentStatus>::empty(),
            r.latest_user_message_errors@ == Map::<Seq<char>, String>::empty(),
            r.agent_prompt_requests@ == Map::<TimingKeyView, ()>::empty(),
            r.agent_prompt_errors@ == Map::<TimingKeyView, String>::empty(),
            r.scheduled_prompt_requests@ == Map::<i64, ()>::empty(),
            r.scheduled_prompt_errors@ == Map::<i64, String>::empty(),
            r.agent_prompt_notice is None,
            r.scheduled_preview_identity is None,
            r.scheduled_session_requests@ == Map::<i64, ()>::empty(),
            r.scheduled_session_refreshes@ == Map::<i64, u64>::empty(),
            r.scheduled_session_errors@ == Map::<i64, String>::empty(),
            r.scheduled_conversation_errors@ == Map::<Seq<char>, String>::empty(),
            r.agent_timing_clear_generation == 0,
            r.agent_timing_persistence_notice is None,
            r.stash_scroll == 0,
            r.scheduled_run_scroll == 0,
            r.pending_agent_stash is None,
            r.stashed_pane_ids@.len() == 0,
            r.scheduler_error is None,
    {
        HerdrSession {
            enabled,
            workspaces: Vec::new(),
            agents: Vec::new(),
            observed_agents: Vec::new(),
            agent_scroll: 0,
            loading: false,
            error: None,
            host_workspace_id: None,
            host_tab_id: None,
            host_pane_id: None,
            cross_workspace_agents: false,
            agent_display_running: false,
            fullscreen_running: false,
            fullscreen: false,
            latest_user_messages: TextTable::new(),
            transcript_revision: 0,
            latest_user_message_requests: TextTable::new(),
            latest_user_message_refreshes: TextTable::new(),
            latest_user_message_statuses: TextTable::new(),
            latest_user_message_errors: TextTable::new(),
            agent_prompt_requests: KeyedTable::new(),
            agent_prompts_on_idle: KeyedTable::new(),
            agent_prompt_errors: KeyedTable::new(),
            scheduled_prompt_requests: IdTable::new(),
            scheduled_prompt_errors: IdTable::new(),
            agent_prompt_notice: None,
            scheduled_preview_identity: None,
            scheduled_session_requests: IdTable::new(),
            scheduled_session_refreshes: IdTable::new(),
            scheduled_session_errors: IdTable::new(),
            scheduled_conversation_errors: TextTable::new(),
            next_refresh_ms: 0,
            spinner_frame: 0,
            next_spinner_ms: 0,
            agent_timings: KeyedTable::new(),
            agent_timing_persisted: timings_persisted && enabled,
            agent_timing_clear_generation: 0,
            agent_timing_persistence_notice: None,
            agent_layouts: KeyedTable::new(),
            agent_layouts_persisted: false,
            displayed_agent_key: None,
            stash,
            stash_writer,
            agent_list_mode: AgentListMode::Agents,
            stash_scroll: 0,
            scheduled_run_scroll: 0,
            agent_stash_running: false,
            pending_agent_stash: None,
            stashed_pane_ids: Vec::new(),
            scheduler: None,
            scheduler_error: None,
            actions: Vec::new(),
        }
    }

    pub fn is_enabled(&self) -> (r: bool)
        ensures
            r == self.enabled,
    {
        self.enabled
    }

    /// The scheduler's tasks; none while the scheduler is unavailable.
    pub fn scheduled_tasks(&self) -> (r: &[ScheduledTask])
        ensures
            match self.scheduler {
                Some(s) => r@ == s.tasks@,
                None => r@.len() == 0,
            },
    {
        match &self.scheduler {
            Some(s) => s.tasks.as_slice(),
            None => &[],
        }
    }

    /// The scheduler's runs; none while the scheduler is unavailable.
    pub fn scheduled_runs(&self) -> (r: &[ScheduledRun])
        ensures
            match self.scheduler {
                Some(s) => r@ == s.runs@,
                None => r@.len() == 0,
            },
    {
        match &self.scheduler {
            Some(s) => s.runs.as_slice(),
            None => &[],
        }
    }

    /// Refuses scheduler work while the scheduler is unavailable.
    pub fn scheduler_service(&self) -> (r: Result<(), String>)
        ensures
            self.scheduler is Some <==> r is Ok,
            r matches Err(e) ==> e@ == "scheduler is unavailable"@,
    {
        match &self.scheduler {
            Some(_) => Ok(()),
            None => Err(String::from_str("scheduler is unavailable")),
        }
    }

    pub fn agent_list_mode(&self) -> (r: AgentListMode)
        ensures
            r == self.agent_list_mode,
    {
        self.agent_list_mode
    }

    /// Shows the next list, scrolled to the top.
    pub fn cycle_agent_list_mode(&mut self)
        requires
            old(self).wf(),
        ensures
            final(self).agent_list_mode == old(self).agent_list_mode.spec_next(),
            final(self).stash_scroll == 0,
            final(self).scheduled_run_scroll == 0,
            final(self).agent_scroll == 0,
            final(self).agents == old(self).agents,
            final(self).wf(),
            Self::same_settings(*old(self), *final(self)),
    {
        self.agent_list_mode = self.agent_list_mode.next();
        self.stash_scroll = 0;
        self.scheduled_run_scroll = 0;
        self.agent_scroll = 0;
    }

    /// Shows the live agents, scrolled to the top.
    pub fn show_live_agents(&mut self)
        requires
            old(self).wf(),
        ensures
            final(self).agent_list_mode == AgentListMode::Agents,
            final(self).stash_scroll == 0,
            final(self).scheduled_run_scroll == 0,
            final(self).agent_scroll == 0,
            final(self).agents == old(self).agents,
            final(self).wf(),
            Self::same_settings(*old(self), *final(self)),
    {
        self.agent_list_mode = AgentListMode::Agents;
        self.stash_scroll = 0;
        self.scheduled_run_scroll = 0;
        self.agent_scroll = 0;
    }

    pub fn agent_layout_running(&self) -> (r: bool)
        ensures
            r == (self.agent_display_running || self.fullscreen_running),
    {
        self.agent_display_running || self.fullscreen_running
    }

    pub fn fullscreen_running(&self) -> (r: bool)
        ensures
            r == self.fullscreen_running,
    {
        self.fullscreen_running
    }

    pub fn fullscreen(&self) -> (r: bool)
        ensures
            r == self.fullscreen,
    {
        self.fullscreen
    }

    pub fn spinner_frame(&self) -> (r: usize)
        ensures
            r == self.spinner_frame,
    {
        self.spinner_frame
    }

    pub fn stashed_agents(&self) -> (r: &[StashedAgent])
        ensures
            r@ == self.stash.agents@,
    {
        self.stash.agents.as_slice()
    }

    /// The session title of the agent at `index`.
    pub fn agent_display_name(&self, index: usize) -> (r: Option<&str>)
        ensures
            index >= self.agents@.len() ==> r is None,
            index < self.agents@.len() ==> match self.agents@[index as int].runtime.session_name {
                Some(n) => r matches Some(x) && x@ == n@,
                None => r is None,
            },
    {
        if index >= self.agents.len() {
            return None;
        }
        match &self.agents[index].runtime.session_name {
            Some(n) => Some(n.as_str()),
            None => None,
        }
    }

    /// The key of the agent at `index`.
    pub fn agent_key(&self, index: usize) -> (r: Option<AgentKey>)
        ensures
            index >= self.agents@.len() ==> r is None,
            index < self.agents@.len() ==> (r matches Some(k) && k.0 == self.agents@[index as int].runtime.timing_key),
    {
        if index >= self.agents.len() {
            return None;
        }
        Some(AgentKey(self.agents[index].runtime.timing_key.duplicate()))
    }

    /// The index of the first agent with the key `key`.
    pub fn agent_index(&self, key: &AgentKey) -> (r: Option<usize>)
        ensures
            match r {
                Some(i) => i < self.agents@.len() && self.agents@[i as int].key() == key.0@
                    && forall|j: int| 0 <= j < i ==> self.agents@[j].key() != key.0@,
                None => forall|j: int| 0 <= j < self.agents@.len() ==> self.agents@[j].key() != key.0@,
            },
    {
        let mut i: usize = 0;
        while i < self.agents.len()
            invariant
                i <= self.agents.len(),
                forall|j: int| 0 <= j < i ==> self.agents@[j].key() != key.0@,
            decreases self.agents.len() - i,
        {
            if self.agents[i].runtime.timing_key.same_as(&key.0) {
                return Some(i);
            }
            i = i + 1;
        }
        None
    }

    /// Where the agent at `index` works: its destination, else its directory.
    pub fn agent_destination(&self, index: usize) -> (r: Option<&str>)
        ensures
            index >= self.agents@.len() ==> r is None,
            index < self.agents@.len() ==> match self.agents@[index as int].destination_cwd {
                Some(d) => r matches Some(x) && x@ == d@,
                None => match self.agents@[index as int].cwd {
                    Some(c) => r matches Some(x) && x@ == c@,
                    None => r is None,
                },
            },
    {
        if index >= self.agents.len() {
            return None;
        }
        let agent = &self.agents[index];
        match &agent.destination_cwd {
            Some(d) => Some(d.as_str()),
            None => match &agent.cwd {
                Some(c) => Some(c.as_str()),
                None => None,
            },
        }
    }

    /// Whether an agent lives in Hunkle's tab.
    pub fn agent_is_in_host_tab_by_agent(&self, agent: &AgentPane) -> (r: bool)
        ensures
            r == in_tab(*agent, self.host_workspace_id, self.host_tab_id),
    {
        let a = match &self.host_workspace_id {
            Some(w) => *w == agent.workspace_id,
            None => false,
        };
        let b = match &self.host_tab_id {
            Some(t) => *t == agent.tab_id,
            None => false,
        };
        a && b
    }

    /// Whether the agent at `index` lives in Hunkle's tab.
    pub fn agent_is_in_host_tab(&self, index: usize) -> (r: bool)
        ensures
            r == (index < self.agents@.len() && in_tab(
                self.agents@[index as int],
                self.host_workspace_id,
                self.host_tab_id,
            )),
    {
        if index >= self.agents.len() {
            return false;
        }
        self.agent_is_in_host_tab_by_agent(&self.agents[index])
    }

    /// An agent card is selected when it is the displayed agent, or, while no
    /// agent is displayed, when its pane has focus.
    pub fn agent_entry_state(&self, index: usize) -> (r: AgentEntryState)
        ensures
            r.selected == (index < self.agents@.len() && match self.displayed_agent_key {
                Some(k) => k@ == self.agents@[index as int].key(),
                None => self.agents@[index as int].focused,
            }),
    {
        if index >= self.agents.len() {
            return AgentEntryState { selected: false };
        }
        let agent = &self.agents[index];
        let selected = match &self.displayed_agent_key {
            Some(k) => k.same_as(&agent.runtime.timing_key),
            None => agent.focused,
        };
        AgentEntryState { selected }
    }

    /// Scrolls the list that is shown by `delta`, saturating at both ends.
    pub fn scroll_agents(&mut self, delta: isize)
        requires
            old(self).wf(),
        ensures
            final(self).agent_list_mode == old(self).agent_list_mode,
            final(self).agents == old(self).agents,
            final(self).wf() == old(self).wf(),
            old(self).agent_list_mode == AgentListMode::Agents ==> final(self).agent_scroll
                == crate::input::spec_add_signed(old(self).agent_scroll, delta)
                && final(self).scheduled_run_scroll == old(self).scheduled_run_scroll
                && final(self).stash_scroll == old(self).stash_scroll,
            old(self).agent_list_mode == AgentListMode::Scheduled ==> final(self).scheduled_run_scroll
                == crate::input::spec_add_signed(old(self).scheduled_run_scroll, delta)
                && final(self).agent_scroll == old(self).agent_scroll
                && final(self).stash_scroll == old(self).stash_scroll,
            old(self).agent_list_mode == AgentListMode::Stash ==> final(self).stash_scroll
                == crate::input::spec_add_signed(old(self).stash_scroll, delta)
                && final(self).agent_scroll == old(self).agent_scroll
                && final(self).scheduled_run_scroll == old(self).scheduled_run_scroll,
    {
        match self.agent_list_mode {
            AgentListMode::Agents => {
                self.agent_scroll = crate::input::add_signed(self.agent_scroll, delta);
            },
            AgentListMode::Scheduled => {
                self.scheduled_run_scroll = crate::input::add_signed(self.scheduled_run_scroll, delta);
            },
            AgentListMode::Stash => {
                self.stash_scroll = crate::input::add_signed(self.stash_scroll, delta);
            },
        }
    }

    /// Forgets the scheduled run whose transcript was previewed.
    pub fn clear_scheduled_conversation(&mut self)
        requires
            old(self).wf(),
        ensures
            final(self).scheduled_preview_identity is None,
            final(self).agents == old(self).agents,
            final(self).wf(),
            Self::same_settings(*old(self), *final(self)),
    {
        self.scheduled_preview_identity = None;
    }

    /// The workspaces whose paths may be linked worktrees, in order.
    pub fn linked_worktree_observation(&self) -> (r: LinkedWorktreeObservation)
        ensures
            r.candidates@.map_values(|c: LinkedWorktreeCandidate| c.path@) == workspace_paths(self.workspaces@),
    {
        let mut candidates: Vec<LinkedWorktreeCandidate> = Vec::new();
        let mut i: usize = 0;
        while i < self.workspaces.len()
            invariant
                i <= self.workspaces.len(),
                candidates@.map_values(|c: LinkedWorktreeCandidate| c.path@) == workspace_paths(
                    self.workspaces@.take(i as int),
                ),
            decreases self.workspaces.len() - i,
        {
            assert(self.workspaces@.take(i + 1).drop_last() =~= self.workspaces@.take(i as int));
            if let Some(path) = &self.workspaces[i].path {
                candidates.push(LinkedWorktreeCandidate { path: path.clone() });
            }
            assert(candidates@.map_values(|c: LinkedWorktreeCandidate| c.path@) =~= workspace_paths(
                self.workspaces@.take(i + 1),
            ));
            i = i + 1;
        }
        assert(self.workspaces@.take(self.workspaces.len() as int) =~= self.workspaces@);
        LinkedWorktreeObservation { candidates }
    }
}

/// The paths of the workspaces that have one, in order.
pub open spec fn workspace_paths(ws: Seq<HerdrWorkspace>) -> Seq<Seq<char>>
    decreases ws.len(),
{
    if ws.len() == 0 {
        seq![]
    } else {
        match ws.last().path {
            Some(p) => workspace_paths(ws.drop_last()).push(p@),
            None => workspace_paths(ws.drop_last()),
        }
    }
}

/// Whether an action sends `prompt` to the pane `pane` for the agent keyed `key`.
pub open spec fn is_prompt_action(a: SessionAction, key: TimingKeyView, pane: Seq<char>, prompt: Seq<char>) -> bool {
    match a {
        SessionAction::PromptAgent { key: k, pane_id, prompt: p } => k@ == key && pane_id@ == pane
            && p@ == prompt,
        _ => false,
    }
}

/// The queued messages that resting agents take, in the order of `agents`,
/// and what stays queued. A key is taken once.
pub open spec fn spec_take_idle(agents: Seq<AgentPane>, queued: Map<TimingKeyView, String>) -> (
    Seq<(TimingKeyView, Seq<char>, Seq<char>)>,
    Map<TimingKeyView, String>,
)
    decreases agents.len(),
{
    if agents.len() == 0 {
        (seq![], queued)
    } else {
        let (taken, rest) = spec_take_idle(agents.drop_last(), queued);
        let a = agents.last();
        if a.runtime.status.spec_is_resting() && rest.dom().contains(a.key()) {
            (taken.push((a.key(), a.pane_id@, rest[a.key()]@)), rest.remove(a.key()))
        } else {
            (taken, rest)
        }
    }
}

/// Whether some agent of `agents` with key `k` is idle or done.
pub open spec fn idle_or_done_with_key(agents: Seq<AgentPane>, k: TimingKeyView) -> bool {
    exists|i: int|
        0 <= i < agents.len() && #[trigger] agents[i].key() == k && (agents[i].runtime.status
            == AgentStatus::Idle || agents[i].runtime.status == AgentStatus::Done)
}

/// Every queued message whose agent is idle or done is handed out, with the
/// text that was queued, and leaves the queue; a message stays queued,
/// unchanged, exactly while none of its agents is idle or done.
pub proof fn lemma_take_idle_serves_agents_at_rest(agents: Seq<AgentPane>, queued: Map<TimingKeyView, String>)
    ensures
        ({
            let (taken, rest) = spec_take_idle(agents, queued);
            &&& forall|k: TimingKeyView|
                #[trigger] idle_or_done_with_key(agents, k) ==> !rest.dom().contains(k)
            &&& forall|k: TimingKeyView|
                #[trigger] queued.dom().contains(k) && !rest.dom().contains(k) ==> exists|j: int|
                    0 <= j < taken.len() && #[trigger] taken[j].0 == k && taken[j].2 == queued[k]@
            &&& forall|k: TimingKeyView|
                #[trigger] queued.dom().contains(k) && !idle_or_done_with_key(agents, k)
                    ==> rest.dom().contains(k) && rest[k] == queued[k]
            &&& forall|k: TimingKeyView|
                #[trigger] rest.dom().contains(k) ==> queued.dom().contains(k) && rest[k] == queued[k]
        }),
    decreases agents.len(),
{
    if agents.len() > 0 {
        let init = agents.drop_last();
        lemma_take_idle_serves_agents_at_rest(init, queued);
        let (taken0, rest0) = spec_take_idle(init, queued);
        let (taken, rest) = spec_take_idle(agents, queued);
        let a = agents.last();
        let n = agents.len() - 1;
        assert forall|k: TimingKeyView| #[trigger] idle_or_done_with_key(agents, k) implies !rest.dom().contains(k) by {
            let i = choose|i: int|
                0 <= i < agents.len() && #[trigger] agents[i].key() == k && (agents[i].runtime.status
                    == AgentStatus::Idle || agents[i].runtime.status == AgentStatus::Done);
            if i < n {
                assert(init[i] == agents[i]);
                assert(idle_or_done_with_key(init, k));
            }
        }
        assert forall|k: TimingKeyView| #[trigger] queued.dom().contains(k) && !rest.dom().contains(k) implies exists|j: int|
            0 <= j < taken.len() && #[trigger] taken[j].0 == k && taken[j].2 == queued[k]@ by {
            if rest0.dom().contains(k) {
                assert(taken.len() == taken0.len() + 1);
                assert(taken[taken0.len() as int].0 == k);
            } else {
                let j = choose|j: int| 0 <= j < taken0.len() && #[trigger] taken0[j].0 == k && taken0[j].2 == queued[k]@;
                assert(taken[j] == taken0[j]);
            }
        }
        assert forall|k: TimingKeyView| #[trigger] queued.dom().contains(k) && !idle_or_done_with_key(agents, k)
            implies rest.dom().contains(k) && rest[k] == queued[k] by {
            if idle_or_done_with_key(init, k) {
                let i = choose|i: int|
                    0 <= i < init.len() && #[trigger] init[i].key() == k && (init[i].runtime.status
                        == AgentStatus::Idle || init[i].runtime.status == AgentStatus::Done);
                assert(agents[i] == init[i]);
            }
            if a.key() == k && (a.runtime.status == AgentStatus::Idle || a.runtime.status == AgentStatus::Done) {
                assert(agents[n] == a);
            }
        }
    }
}

/// The view of a taken message.
pub open spec fn taken_view(t: (AgentTimingKey, String, String)) -> (TimingKeyView, Seq<char>, Seq<char>) {
    (t.0@, t.1@, t.2@)
}

/// A copy of a timer table.
pub fn duplicate_timings(t: &TimingTable) -> (r: TimingTable)
    ensures
        r.entries@.len() == t.entries@.len(),
        forall|i: int| 0 <= i < t.entries@.len() ==> #[trigger] r.entries@[i] == t.entries@[i],
        r@ == t@,
        t.wf() ==> r.wf(),
{
    let mut entries: Vec<(AgentTimingKey, AgentTiming)> = Vec::new();
    let mut i: usize = 0;
    while i < t.entries.len()
        invariant
            i <= t.entries.len(),
            entries@ == t.entries@.take(i as int),
        decreases t.entries.len() - i,
    {
        let (k, v) = &t.entries[i];
        entries.push((k.duplicate(), *v));
        assert(entries@ =~= t.entries@.take(i + 1));
        i = i + 1;
    }
    assert(t.entries@.take(t.entries.len() as int) =~= t.entries@);
    KeyedTable { entries }
}

impl<W: Fn(&Vec<StashedAgent>) -> Result<(), String>> HerdrSession<W> {
    /// The message of the agent at `index` that waits: queued for when it
    /// rests, or being sent.
    pub fn agent_prompt_pending(&self, index: usize) -> (r: Option<AgentPromptOutcome>)
        requires
            self.wf(),
        ensures
            index >= self.agents@.len() ==> r is None,
            index < self.agents@.len() ==> r == (if self.agent_prompts_on_idle@.dom().contains(
                self.agents@[index as int].key(),
            ) {
                Some(AgentPromptOutcome::Queued)
            } else if self.agent_prompt_requests@.dom().contains(self.agents@[index as int].key()) {
                Some(AgentPromptOutcome::Sending)
            } else {
                None
            }),
    {
        if index >= self.agents.len() {
            return None;
        }
        let key = &self.agents[index].runtime.timing_key;
        if self.agent_prompts_on_idle.contains_key(key) {
            Some(AgentPromptOutcome::Queued)
        } else if self.agent_prompt_requests.contains_key(key) {
            Some(AgentPromptOutcome::Sending)
        } else {
            None
        }
    }

    /// Whether a message of the agent at `index` waits.
    pub fn agent_prompt_sending(&self, index: usize) -> (r: bool)
        requires
            self.wf(),
        ensures
            r == (index < self.agents@.len() && (self.agent_prompts_on_idle@.dom().contains(
                self.agents@[index as int].key(),
            ) || self.agent_prompt_requests@.dom().contains(self.agents@[index as int].key()))),
    {
        self.agent_prompt_pending(index).is_some()
    }

    /// The error of the last message to the agent at `index`.
    pub fn agent_prompt_error(&self, index: usize) -> (r: Option<&str>)
        requires
            self.wf(),
        ensures
            index >= self.agents@.len() ==> r is None,
            index < self.agents@.len() ==> if self.agent_prompt_errors@.dom().contains(
                self.agents@[index as int].key(),
            ) {
                r matches Some(e) && e@ == self.agent_prompt_errors@[self.agents@[index as int].key()]@
            } else {
                r is None
            },
    {
        if index >= self.agents.len() {
            return None;
        }
        match self.agent_prompt_errors.position(&self.agents[index].runtime.timing_key) {
            Some(p) => Some(self.agent_prompt_errors.entries[p].1.as_str()),
            None => None,
        }
    }

    /// Forgets the error of the last message to the agent at `index`.
    pub fn clear_agent_prompt_error(&mut self, index: usize)
        requires
            old(self).wf(),
        ensures
            final(self).wf(),
            Self::same_settings(*old(self), *final(self)),
            final(self).agents == old(self).agents,
            index < old(self).agents@.len() ==> final(self).agent_prompt_errors@ == old(
                self,
            ).agent_prompt_errors@.remove(old(self).agents@[index as int].key()),
            index >= old(self).agents@.len() ==> final(self).agent_prompt_errors@ == old(
                self,
            ).agent_prompt_errors@,
    {
        if index < self.agents.len() {
            let key = self.agents[index].runtime.timing_key.duplicate();
            self.agent_prompt_errors.remove(&key);
        }
    }

    /// Starts sending `prompt` to the agent keyed `key` in the pane `pane_id`.
    fn start_agent_prompt(&mut self, key: AgentTimingKey, pane_id: String, prompt: String)
        requires
            old(self).wf(),
        ensures
            final(self).wf(),
            Self::same_settings(*old(self), *final(self)),
            final(self).agent_prompt_requests@ == old(self).agent_prompt_requests@.insert(key@, ()),
            final(self).agent_prompt_errors@ == old(self).agent_prompt_errors@.remove(key@),
            final(self).actions@.len() == old(self).actions@.len() + 1,
            final(self).actions@.take(old(self).actions@.len() as int) == old(self).actions@,
            is_prompt_action(final(self).actions@.last(), key@, pane_id@, prompt@),
            Self::same_but_prompts(*old(self), *final(self)),
            final(self).agent_prompts_on_idle == old(self).agent_prompts_on_idle,
            final(self).agents == old(self).agents,
            final(self).observed_agents == old(self).observed_agents,
            final(self).agent_prompts_on_idle == old(self).agent_prompts_on_idle,
    {
        self.agent_prompt_requests.insert(key.duplicate(), ());
        self.agent_prompt_errors.remove(&key);
        self.actions.push(SessionAction::PromptAgent { key, pane_id, prompt });
        assert(self.actions@.take(self.actions@.len() - 1) =~= old(self).actions@);
    }

    /// Sends a message to the agent at `index`, or queues it until the agent
    /// rests when it is to be delivered then.
    pub fn prompt_agent(&mut self, index: usize, prompt: String, delivery: AgentPromptDelivery) -> (r:
        Result<AgentPromptOutcome, String>)
        requires
            old(self).wf(),
        ensures
            final(self).wf(),
            Self::same_settings(*old(self), *final(self)),
            final(self).agents == old(self).agents,
            final(self).observed_agents == old(self).observed_agents,
            crate::text::trim(prompt@).len() == 0 ==> (r matches Err(e) && e@ == "Enter a message"@),
            crate::text::trim(prompt@).len() > 0 && index >= old(self).agents@.len() ==> (r matches Err(
                e,
            ) && e@ == "Agent is no longer available"@),
            crate::text::trim(prompt@).len() > 0 && index < old(self).agents@.len() ==> {
                let a = old(self).agents@[index as int];
                if old(self).agent_prompt_requests@.dom().contains(a.key())
                    || old(self).agent_prompts_on_idle@.dom().contains(a.key()) {
                    r matches Err(e) && e@ == "A message is already queued for this agent"@
                } else if delivery == AgentPromptDelivery::OnIdle
                    && !a.runtime.status.spec_is_resting() {
                    &&& r == Ok::<AgentPromptOutcome, String>(AgentPromptOutcome::Queued)
                    &&& final(self).agent_prompts_on_idle@ == old(self).agent_prompts_on_idle@.insert(
                        a.key(),
                        prompt,
                    )
                    &&& final(self).agent_prompt_errors@ == old(self).agent_prompt_errors@.remove(
                        a.key(),
                    )
                    &&& final(self).actions == old(self).actions
                    &&& final(self).agent_prompt_requests == old(self).agent_prompt_requests
                } else {
                    &&& r == Ok::<AgentPromptOutcome, String>(AgentPromptOutcome::Sending)
                    &&& final(self).agent_prompt_requests@ == old(self).agent_prompt_requests@.insert(
                        a.key(),
                        (),
                    )
                    &&& final(self).agent_prompt_errors@ == old(self).agent_prompt_errors@.remove(
                        a.key(),
                    )
                    &&& final(self).actions@ == old(self).actions@.push(final(self).actions@.last())
                    &&& is_prompt_action(final(self).actions@.last(), a.key(), a.pane_id@, prompt@)
                }
            },
            r is Err ==> final(self).agent_prompts_on_idle == old(self).agent_prompts_on_idle
                && final(self).agent_prompt_requests == old(self).agent_prompt_requests
                && final(self).actions == old(self).actions,
    {
        let chars = crate::text::chars_of(prompt.as_str());
        if crate::text::all_whitespace(&chars) {
            return Err(String::from_str("Enter a message"));
        }
        if index >= self.agents.len() {
            return Err(String::from_str("Agent is no longer available"));
        }
        let key = self.agents[index].runtime.timing_key.duplicate();
        if self.agent_prompt_requests.contains_key(&key) || self.agent_prompts_on_idle.contains_key(
            &key,
        ) {
            return Err(String::from_str("A message is already queued for this agent"));
        }
        if delivery == AgentPromptDelivery::OnIdle && !self.agents[index].runtime.status.is_resting() {
            self.agent_prompt_errors.remove(&key);
            self.agent_prompts_on_idle.insert(key, prompt);
            return Ok(AgentPromptOutcome::Queued);
        }
        let pane_id = self.agents[index].pane_id.clone();
        self.start_agent_prompt(key, pane_id, prompt);
        proof {
            assert(self.actions@ =~= old(self).actions@.push(self.actions@.last()));
        }
        Ok(AgentPromptOutcome::Sending)
    }

    /// Takes the queued messages of observed agents that rest now.
    pub fn take_idle_agent_prompts(&mut self) -> (r: Vec<(AgentTimingKey, String, String)>)
        requires
            old(self).wf(),
        ensures
            final(self).wf(),
            Self::same_settings(*old(self), *final(self)),
            r@.map_values(|t: (AgentTimingKey, String, String)| taken_view(t)) == spec_take_idle(
                old(self).observed_agents@,
                old(self).agent_prompts_on_idle@,
            ).0,
            final(self).agent_prompts_on_idle@ == spec_take_idle(
                old(self).observed_agents@,
                old(self).agent_prompts_on_idle@,
            ).1,
            final(self).agents == old(self).agents,
            final(self).observed_agents == old(self).observed_agents,
            final(self).agent_prompt_requests == old(self).agent_prompt_requests,
            final(self).agent_prompt_errors == old(self).agent_prompt_errors,
            final(self).actions == old(self).actions,
            Self::same_but_prompts(*old(self), *final(self)),
    {
        let mut prompts: Vec<(AgentTimingKey, String, String)> = Vec::new();
        let mut i: usize = 0;
        while i < self.observed_agents.len()
            invariant
                i <= self.observed_agents.len(),
                self.wf(),
                self.observed_agents == old(self).observed_agents,
                self.agents == old(self).agents,
                self.agent_prompt_requests == old(self).agent_prompt_requests,
                self.agent_prompt_errors == old(self).agent_prompt_errors,
                self.actions == old(self).actions,
                Self::same_but_prompts(*old(self), *self),
                prompts@.map_values(|t: (AgentTimingKey, String, String)| taken_view(t)) == spec_take_idle(
                    self.observed_agents@.take(i as int),
                    old(self).agent_prompts_on_idle@,
                ).0,
                self.agent_prompts_on_idle@ == spec_take_idle(
                    self.observed_agents@.take(i as int),
                    old(self).agent_prompts_on_idle@,
                ).1,
            decreases self.observed_agents.len() - i,
        {
            assert(self.observed_agents@.take(i + 1).drop_last() =~= self.observed_agents@.take(
                i as int,
            ));
            let resting = self.observed_agents[i].runtime.status.is_resting();
            if resting {
                let key = self.observed_agents[i].runtime.timing_key.duplicate();
                let pane_id = self.observed_agents[i].pane_id.clone();
                if let Some(prompt) = self.agent_prompts_on_idle.remove(&key) {
                    prompts.push((key, pane_id, prompt));
                }
            }
            assert(prompts@.map_values(|t: (AgentTimingKey, String, String)| taken_view(t)) =~= spec_take_idle(
                self.observed_agents@.take(i + 1),
                old(self).agent_prompts_on_idle@,
            ).0);
            i = i + 1;
        }
        assert(self.observed_agents@.take(self.observed_agents.len() as int) =~= self.observed_agents@);
        prompts
    }

    /// What `dispatch_idle_agent_prompts` makes of the session.
    pub open spec fn idle_prompts_dispatched(before: Self, after: Self) -> bool {
        &&& Self::same_settings(before, after)
        &&& Self::same_but_prompts(before, after)
        &&& forall|k: TimingKeyView| #[trigger] after.agent_prompt_errors@.dom().contains(k)
                    ==> before.agent_prompt_errors@.dom().contains(k)
                    && after.agent_prompt_errors@[k] == before.agent_prompt_errors@[k]
        &&& after.agents == before.agents
        &&& after.observed_agents == before.observed_agents
        &&& after.agent_prompts_on_idle@ == spec_take_idle(
                    before.observed_agents@,
                    before.agent_prompts_on_idle@,
                ).1
        &&& ({
                    let taken = spec_take_idle(before.observed_agents@, before.agent_prompts_on_idle@).0;
                    &&& after.actions@.len() == before.actions@.len() + taken.len()
                    &&& after.actions@.take(before.actions@.len() as int) == before.actions@
                    &&& forall|k: int| 0 <= k < taken.len() ==> is_prompt_action(
                        #[trigger] after.actions@[before.actions@.len() + k],
                        taken[k].0,
                        taken[k].1,
                        taken[k].2,
                    )
                    &&& forall|k: int| 0 <= k < taken.len() ==> after.agent_prompt_requests@.dom().contains(
                        #[trigger] taken[k].0,
                    )
                })
    }

    /// Starts sending every queued message whose observed agent rests now.
    pub fn dispatch_idle_agent_prompts(&mut self)
        requires
            old(self).wf(),
        ensures
            final(self).wf(),
            Self::idle_prompts_dispatched(*old(self), *final(self)),

    {
        let ready = self.take_idle_agent_prompts();
        let ghost taken = ready@.map_values(|t: (AgentTimingKey, String, String)| taken_view(t));
        let ghost start = self.actions@.len();
        let ghost before = self.actions@;
        let mut ready = ready;
        let mut i: usize = 0;
        let n = ready.len();
        while ready.len() > 0
            invariant
                self.wf(),
                n == taken.len(),
                i + ready.len() == n,
                forall|k: int| 0 <= k < ready@.len() ==> taken_view(#[trigger] ready@[k]) == taken[i + k],
                self.agents == old(self).agents,
                self.observed_agents == old(self).observed_agents,
                Self::same_but_prompts(*old(self), *self),
                forall|k: TimingKeyView| #[trigger] self.agent_prompt_errors@.dom().contains(k)
                    ==> old(self).agent_prompt_errors@.dom().contains(k)
                    && self.agent_prompt_errors@[k] == old(self).agent_prompt_errors@[k],
                self.agent_prompts_on_idle@ == spec_take_idle(
                    old(self).observed_agents@,
                    old(self).agent_prompts_on_idle@,
                ).1,
                self.actions@.len() == start + i,
                self.actions@.take(start as int) == before,
                forall|k: int| 0 <= k < i ==> is_prompt_action(
                    #[trigger] self.actions@[start + k],
                    taken[k].0,
                    taken[k].1,
                    taken[k].2,
                ),
                forall|k: int| 0 <= k < i ==> self.agent_prompt_requests@.dom().contains(#[trigger] taken[k].0),
            decreases ready.len(),
        {
            let (key, pane_id, prompt) = ready.remove(0);
            let ghost prev = self.actions@;
            self.start_agent_prompt(key, pane_id, prompt);
            proof {
                assert forall|k: int| 0 <= k < i implies is_prompt_action(
                    #[trigger] self.actions@[start + k],
                    taken[k].0,
                    taken[k].1,
                    taken[k].2,
                ) by {
                    assert(self.actions@[start + k] == prev[start + k]);
                }
                assert(self.actions@.take(start as int) =~= before) by {
                    assert(forall|k: int| 0 <= k < start ==> self.actions@[k] == prev[k]);
                }
                assert forall|k: int| 0 <= k < ready@.len() implies taken_view(#[trigger] ready@[k]) == taken[i + 1 + k] by {
                    assert(taken_view(ready@[k]) == taken[i + 1 + k]);
                }
            }
            i = i + 1;
        }
    }
}

/// `a + b`, saturated at `u64::MAX`.
pub open spec fn sat_add(a: u64, b: u64) -> u64 {
    if a + b > u64::MAX {
        u64::MAX
    } else {
        (a + b) as u64
    }
}

/// The first card group, among the first `n`, whose representative shares a tab with `a`.
pub open spec fn first_group_upto(agents: Seq<AgentPane>, groups: Seq<(usize, usize)>, a: AgentPane, n: int) -> Option<int>
    decreases n,
{
    if n <= 0 {
        None
    } else {
        match first_group_upto(agents, groups, a, n - 1) {
            Some(k) => Some(k),
            None => if same_tab(agents[groups[n - 1].0 as int], a) {
                Some(n - 1)
            } else {
                None
            },
        }
    }
}

/// The agent cards: one per tab, in the order the tabs first occur, each with
/// its first agent and how many agents share the tab.
pub open spec fn card_groups(agents: Seq<AgentPane>) -> Seq<(usize, usize)>
    decreases agents.len(),
{
    if agents.len() == 0 {
        seq![]
    } else {
        let g = card_groups(agents.drop_last());
        match first_group_upto(agents, g, agents.last(), g.len() as int) {
            Some(k) => g.update(k, (g[k].0, (g[k].1 + 1) as usize)),
            None => g.push(((agents.len() - 1) as usize, 1usize)),
        }
    }
}

proof fn lemma_first_group_bounds(agents: Seq<AgentPane>, groups: Seq<(usize, usize)>, a: AgentPane, n: int)
    ensures
        first_group_upto(agents, groups, a, n) matches Some(k) ==> 0 <= k < n && same_tab(agents[groups[k].0 as int], a),
        first_group_upto(agents, groups, a, n) is None ==> forall|k: int| 0 <= k < n ==> !same_tab(agents[#[trigger] groups[k].0 as int], a),
    decreases n,
{
    if n > 0 {
        lemma_first_group_bounds(agents, groups, a, n - 1);
    }
}

proof fn lemma_first_group_same_prefix(agents: Seq<AgentPane>, other: Seq<AgentPane>, groups: Seq<(usize, usize)>, a: AgentPane, n: int)
    requires
        forall|k: int| 0 <= k < n ==> (#[trigger] groups[k]).0 < agents.len() && groups[k].0 < other.len() && agents[groups[k].0 as int] == other[groups[k].0 as int],
    ensures
        first_group_upto(agents, groups, a, n) == first_group_upto(other, groups, a, n),
    decreases n,
{
    if n > 0 {
        lemma_first_group_same_prefix(agents, other, groups, a, n - 1);
    }
}

impl<W: Fn(&Vec<StashedAgent>) -> Result<(), String>> HerdrSession<W> {
    /// What `observe_agent_status_event_at` makes of the session.
    pub open spec fn status_observed(before: Self, after: Self, event: AgentStatusEvent, now_ms: u64) -> bool {
        &&& Self::same_settings(before, after)
        &&& after.observed_agents@.len() == before.observed_agents@.len()
        &&& after.agents@.len() == before.agents@.len()
        &&& forall|i: int| 0 <= i < before.observed_agents@.len() ==> {
                    let a = before.observed_agents@[i];
                    let b = #[trigger] after.observed_agents@[i];
                    if i == first_in_pane(before.observed_agents@, event.workspace_id@, event.pane_id@) {
                        b == AgentPane { runtime: crate::agent::AgentRuntime { status: event.status, ..a.runtime }, ..a }
                    } else {
                        b == a
                    }
                }
        &&& forall|i: int| 0 <= i < before.agents@.len() ==> {
                    let a = before.agents@[i];
                    let b = #[trigger] after.agents@[i];
                    if i == first_in_pane(before.agents@, event.workspace_id@, event.pane_id@) {
                        b == AgentPane { runtime: crate::agent::AgentRuntime { status: event.status, ..a.runtime }, ..a }
                    } else {
                        b == a
                    }
                }
        &&& ({
                    let j = first_in_pane(before.agents@, event.workspace_id@, event.pane_id@);
                    if j < before.agents@.len() {
                        let a = before.agents@[j];
                        &&& after.agent_timings@ == crate::timing::spec_observe_status(
                            before.agent_timings@,
                            a.key(),
                            event.status,
                            a.runtime.state_change_seq,
                            now_ms,
                        )
                        &&& if before.agent_timing_persisted {
                            &&& after.actions@.len() == before.actions@.len() + 1
                            &&& after.actions@.take(before.actions@.len() as int) == before.actions@
                            &&& after.actions@.last() matches SessionAction::PersistTimings(request)
                            &&& request.submitted@ == after.agent_timings@
                            &&& request.clear_generation == before.agent_timing_clear_generation
                            &&& request.operation matches Operation::Status { key, status, state_change_seq, now_ms: at }
                            &&& key@ == a.key() && status == event.status
                            &&& state_change_seq == a.runtime.state_change_seq && at == now_ms
                        } else {
                            after.actions == before.actions
                        }
                    } else {
                        after.agent_timings == before.agent_timings && after.actions == before.actions
                    }
                })
        &&& after.agent_prompts_on_idle == before.agent_prompts_on_idle
        &&& after.agent_prompt_requests == before.agent_prompt_requests
        &&& after.agent_prompt_errors == before.agent_prompt_errors
    }

    /// Updates the status of the agents in the event's pane and observes it in
    /// the agent's timer. Only the first matching agent of each list changes.
    pub fn observe_agent_status_event_at(&mut self, event: AgentStatusEvent, now_ms: u64)
        requires
            old(self).wf(),
        ensures
            final(self).wf(),
            Self::status_observed(*old(self), *final(self), event, now_ms),

    {
        let i = first_agent_in_pane(&self.observed_agents, &event.workspace_id, &event.pane_id);
        if i < self.observed_agents.len() {
            let mut a = self.observed_agents[i].duplicate();
            a.runtime.status = event.status;
            self.observed_agents.set(i, a);
        }
        let j = first_agent_in_pane(&self.agents, &event.workspace_id, &event.pane_id);
        if j >= self.agents.len() {
            return;
        }
        let mut a = self.agents[j].duplicate();
        a.runtime.status = event.status;
        let key = a.runtime.timing_key.duplicate();
        let state_change_seq = a.runtime.state_change_seq;
        self.agents.set(j, a);
        observe_status_local(&mut self.agent_timings, &key, event.status, state_change_seq, now_ms);
        if self.agent_timing_persisted {
            let submitted = duplicate_timings(&self.agent_timings);
            self.actions.push(
                SessionAction::PersistTimings(
                    Request {
                        submitted,
                        clear_generation: self.agent_timing_clear_generation,
                        operation: Operation::Status { key, status: event.status, state_change_seq, now_ms },
                    },
                ),
            );
            assert(self.actions@.take(self.actions@.len() - 1) =~= old(self).actions@);
        }
    }

    /// What `apply_agent_status_event_at` makes of the session.
    pub open spec fn status_event_applied(before: Self, after: Self, event: AgentStatusEvent, now_ms: u64) -> bool {
        &&& Self::same_settings(before, after)
        &&& after.agents@.len() == before.agents@.len()
        &&& exists|mid: Self| #[trigger] Self::status_observed(before, mid, event, now_ms)
            && Self::idle_prompts_dispatched(mid, after)
    }

    /// Observes a status event, then starts the queued messages that can go.
    pub fn apply_agent_status_event_at(&mut self, event: AgentStatusEvent, now_ms: u64)
        requires
            old(self).wf(),
        ensures
            final(self).wf(),
            Self::status_event_applied(*old(self), *final(self), event, now_ms),
    {
        let ghost before = *self;
        self.observe_agent_status_event_at(event, now_ms);
        let ghost mid = *self;
        self.dispatch_idle_agent_prompts();
        assert(Self::status_observed(before, mid, event, now_ms) && Self::idle_prompts_dispatched(mid, *self));
    }

    /// What `poll_spinner` makes of the session.
    pub open spec fn spinner_advanced(before: Self, after: Self, now_ms: u64, presented: bool, r: bool) -> bool {
        &&& after == (HerdrSession::<W> {
            spinner_frame: after.spinner_frame,
            next_spinner_ms: after.next_spinner_ms,
            ..before
        })
        &&& after.loading == before.loading
        &&& after.next_refresh_ms == before.next_refresh_ms
        &&& Self::same_settings(before, after)
        &&& after.agents == before.agents
        &&& !presented ==> !r && after.next_spinner_ms == now_ms
                    && after.spinner_frame == before.spinner_frame
        &&& presented && !(before.enabled && exists|i: int| 0 <= i < before.agents@.len()
                    && #[trigger] before.agents@[i].runtime.status == AgentStatus::Working) ==> !r
                    && after.spinner_frame == 0 && after.next_spinner_ms == now_ms
        &&& presented && before.enabled && (exists|i: int| 0 <= i < before.agents@.len()
                    && #[trigger] before.agents@[i].runtime.status == AgentStatus::Working) ==> if now_ms
                    < before.next_spinner_ms {
                    !r && after.spinner_frame == before.spinner_frame
                        && after.next_spinner_ms == before.next_spinner_ms
                } else {
                    r && after.spinner_frame == (before.spinner_frame + 1) % (SPINNER_FRAME_COUNT as int)
                        && after.next_spinner_ms == sat_add(now_ms, SPINNER_INTERVAL_MS)
                }
    }

    /// Advances the spinner when an animation was presented and an agent works.
    pub fn poll_spinner(&mut self, now_ms: u64, presented: bool) -> (r: bool)
        requires
            old(self).wf(),
        ensures
            final(self).wf(),
            Self::spinner_advanced(*old(self), *final(self), now_ms, presented, r),

    {
        if !presented {
            self.next_spinner_ms = now_ms;
            return false;
        }
        let mut working = false;
        if self.enabled {
            let mut i: usize = 0;
            while i < self.agents.len()
                invariant
                    i <= self.agents.len(),
                    working == exists|k: int| 0 <= k < i && #[trigger] self.agents@[k].runtime.status == AgentStatus::Working,
                decreases self.agents.len() - i,
            {
                if self.agents[i].runtime.status == AgentStatus::Working {
                    working = true;
                }
                i = i + 1;
            }
        }
        if !working {
            self.spinner_frame = 0;
            self.next_spinner_ms = now_ms;
            return false;
        }
        if now_ms < self.next_spinner_ms {
            return false;
        }
        self.spinner_frame = (self.spinner_frame + 1) % SPINNER_FRAME_COUNT;
        self.next_spinner_ms = now_ms.saturating_add(SPINNER_INTERVAL_MS);
        true
    }

    /// The agent cards: for each tab in the order it first occurs, its first
    /// agent's index and how many agents it holds.
    pub fn agent_card_groups(&self) -> (r: Vec<(usize, usize)>)
        ensures
            r@ == card_groups(self.agents@),
    {
        let mut groups: Vec<(usize, usize)> = Vec::new();
        let mut index: usize = 0;
        while index < self.agents.len()
            invariant
                index <= self.agents.len(),
                groups@ == card_groups(self.agents@.take(index as int)),
                forall|k: int| 0 <= k < groups@.len() ==> (#[trigger] groups@[k]).0 < index && groups@[k].1 <= index,
            decreases self.agents.len() - index,
        {
            let ghost prefix = self.agents@.take(index as int);
            let ghost next = self.agents@.take(index + 1);
            assert(next.drop_last() =~= prefix);
            assert(next.last() == self.agents@[index as int]);
            proof {
                assert forall|j: int| 0 <= j < groups@.len() implies (#[trigger] groups@[j]).0 < next.len()
                    && groups@[j].0 < self.agents@.len() && next[groups@[j].0 as int] == self.agents@[groups@[j].0 as int] by {
                }
                lemma_first_group_same_prefix(next, self.agents@, groups@, self.agents@[index as int], groups@.len() as int);
            }
            let mut k: usize = 0;
            let mut found: Option<usize> = None;
            while k < groups.len() && found.is_none()
                invariant
                    k <= groups.len(),
                    index < self.agents.len(),
                    forall|j: int| 0 <= j < groups@.len() ==> (#[trigger] groups@[j]).0 < index,
                    found matches Some(f) ==> f < k && first_group_upto(self.agents@, groups@, self.agents@[index as int], groups@.len() as int) == Some(f as int),
                    found is None ==> first_group_upto(self.agents@, groups@, self.agents@[index as int], k as int) is None,
                decreases groups.len() - k,
            {
                let rep = groups[k].0;
                let same = self.agents[rep].workspace_id == self.agents[index].workspace_id
                    && self.agents[rep].tab_id == self.agents[index].tab_id;
                if same {
                    proof {
                        lemma_first_group_prefix(self.agents@, groups@, self.agents@[index as int], k as int + 1, groups@.len() as int);
                    }
                    found = Some(k);
                }
                k = k + 1;
            }
            match found {
                Some(f) => {
                    let (rep, count) = groups[f];
                    groups.set(f, (rep, count + 1));
                },
                None => {
                    groups.push((index, 1));
                },
            }
            assert(groups@ =~= card_groups(next));
            index = index + 1;
        }
        assert(self.agents@.take(self.agents.len() as int) =~= self.agents@);
        groups
    }

    /// How many agent cards there are.
    pub fn agent_card_count(&self) -> (r: usize)
        ensures
            r == card_groups(self.agents@).len(),
    {
        self.agent_card_groups().len()
    }

    /// The card that shows the agent at `index`.
    pub fn agent_card_index(&self, index: usize) -> (r: Option<usize>)
        ensures
            index >= self.agents@.len() ==> r is None,
            index < self.agents@.len() ==> match first_group_upto(
                self.agents@,
                card_groups(self.agents@),
                self.agents@[index as int],
                card_groups(self.agents@).len() as int,
            ) {
                Some(k) => r == Some(k as usize),
                None => r is None,
            },
    {
        if index >= self.agents.len() {
            return None;
        }
        let groups = self.agent_card_groups();
        let mut k: usize = 0;
        while k < groups.len()
            invariant
                k <= groups.len(),
                index < self.agents.len(),
                groups@ == card_groups(self.agents@),
                first_group_upto(self.agents@, groups@, self.agents@[index as int], k as int) is None,
            decreases groups.len() - k,
        {
            let rep = groups[k].0;
            proof {
                lemma_card_groups_in_range(self.agents@);
            }
            if self.agents[rep].workspace_id == self.agents[index].workspace_id
                && self.agents[rep].tab_id == self.agents[index].tab_id {
                proof {
                    lemma_first_group_prefix(self.agents@, groups@, self.agents@[index as int], k as int + 1, groups@.len() as int);
                }
                return Some(k);
            }
            k = k + 1;
        }
        None
    }
}

/// Once a group is found among the first `m`, more groups do not change it.
proof fn lemma_first_group_prefix(agents: Seq<AgentPane>, groups: Seq<(usize, usize)>, a: AgentPane, m: int, n: int)
    requires
        0 <= m <= n,
        first_group_upto(agents, groups, a, m) is Some,
    ensures
        first_group_upto(agents, groups, a, n) == first_group_upto(agents, groups, a, m),
    decreases n - m,
{
    if m < n {
        lemma_first_group_prefix(agents, groups, a, m, n - 1);
    }
}

/// Every card's first agent is an agent of the list.
pub proof fn lemma_card_groups_in_range(agents: Seq<AgentPane>)
    ensures
        forall|k: int| 0 <= k < card_groups(agents).len() ==> (#[trigger] card_groups(agents)[k]).0 < agents.len(),
    decreases agents.len(),
{
    if agents.len() > 0 {
        lemma_card_groups_in_range(agents.drop_last());
        let g = card_groups(agents.drop_last());
        lemma_first_group_bounds(agents, g, agents.last(), g.len() as int);
    }
}

/// The index of the first agent in the pane `pane_id` of workspace
/// `workspace_id`, or the length of the list.
pub open spec fn first_in_pane(agents: Seq<AgentPane>, workspace_id: Seq<char>, pane_id: Seq<char>) -> int
    decreases agents.len(),
{
    if agents.len() == 0 {
        0
    } else if agents[0].workspace_id@ == workspace_id && agents[0].pane_id@ == pane_id {
        0
    } else {
        1 + first_in_pane(agents.drop_first(), workspace_id, pane_id)
    }
}

proof fn lemma_first_in_pane(agents: Seq<AgentPane>, workspace_id: Seq<char>, pane_id: Seq<char>, i: int)
    requires
        0 <= i <= agents.len(),
        forall|k: int| 0 <= k < i ==> !((#[trigger] agents[k]).workspace_id@ == workspace_id && agents[k].pane_id@ == pane_id),
        i == agents.len() || (agents[i].workspace_id@ == workspace_id && agents[i].pane_id@ == pane_id),
    ensures
        first_in_pane(agents, workspace_id, pane_id) == i,
    decreases i,
{
    if i > 0 {
        assert forall|k: int| 0 <= k < i - 1 implies !((#[trigger] agents.drop_first()[k]).workspace_id@ == workspace_id && agents.drop_first()[k].pane_id@ == pane_id) by {
            assert(agents.drop_first()[k] == agents[k + 1]);
        }
        lemma_first_in_pane(agents.drop_first(), workspace_id, pane_id, i - 1);
    }
}

/// The index of the first agent in the given pane, or the length of the list.
fn first_agent_in_pane(agents: &Vec<AgentPane>, workspace_id: &String, pane_id: &String) -> (r: usize)
    ensures
        r == first_in_pane(agents@, workspace_id@, pane_id@),
        r <= agents@.len(),
{
    let mut i: usize = 0;
    while i < agents.len()
        invariant
            i <= agents.len(),
            forall|k: int| 0 <= k < i ==> !((#[trigger] agents@[k]).workspace_id@ == workspace_id@ && agents@[k].pane_id@ == pane_id@),
        decreases agents.len() - i,
    {
        if agents[i].workspace_id == *workspace_id && agents[i].pane_id == *pane_id {
            proof {
                lemma_first_in_pane(agents@, workspace_id@, pane_id@, i as int);
            }
            return i;
        }
        i = i + 1;
    }
    proof {
        lemma_first_in_pane(agents@, workspace_id@, pane_id@, i as int);
    }
    i
}

/// Whether some agent has the pane `pane`.
pub open spec fn pane_observed(agents: Seq<AgentPane>, pane: Seq<char>) -> bool {
    exists|i: int| 0 <= i < agents.len() && (#[trigger] agents[i]).pane_id@ == pane
}

/// Whether some agent has the key `key`.
pub open spec fn key_observed(agents: Seq<AgentPane>, key: TimingKeyView) -> bool {
    exists|i: int| 0 <= i < agents.len() && (#[trigger] agents[i]).key() == key
}

/// The stashed panes that the snapshot still shows.
pub open spec fn stashed_after(ids: Seq<String>, agents: Seq<AgentPane>) -> Seq<String> {
    ids.filter(|p: String| pane_observed(agents, p@))
}

/// The agents of a snapshot that are neither being stashed nor stashed.
pub open spec fn observed_of(agents: Seq<AgentPane>, pending_pane: Option<Seq<char>>, stashed: Seq<String>) -> Seq<AgentPane> {
    agents.filter(|a: AgentPane| pending_pane != Some(a.pane_id@) && !listed(stashed, a.pane_id@))
}

/// The observed agents the agent list shows: all of them when agents of every
/// workspace are shown or Hunkle has no workspace, else those of Hunkle's.
pub open spec fn visible_of(observed: Seq<AgentPane>, cross_workspace: bool, host_workspace_id: Option<String>) -> Seq<AgentPane> {
    if cross_workspace || host_workspace_id is None {
        observed
    } else {
        observed.filter(|a: AgentPane| opt_view(host_workspace_id) == Some(a.workspace_id@))
    }
}

/// Whether a conversation is still shown: an agent of the list runs it, or it
/// is the scheduled run being previewed.
pub open spec fn conversation_active(visible: Seq<AgentPane>, preview: Option<OpenCodeConversationIdentity>, id: Seq<char>) -> bool {
    (exists|i: int| 0 <= i < visible.len() && conversation_of(#[trigger] visible[i]) == Some(id))
        || (preview matches Some(p) && p.session_id@ == id)
}

/// The first index of an agent with the pane `pane`, or `usize::MAX`.
pub open spec fn previous_position(previous: Seq<AgentPane>, pane: Seq<char>) -> int {
    let i = first_with_pane(previous, pane);
    if i < previous.len() {
        i
    } else {
        usize::MAX as int
    }
}

/// The index of the first agent with the pane `pane`, or the length of the list.
pub open spec fn first_with_pane(agents: Seq<AgentPane>, pane: Seq<char>) -> int
    decreases agents.len(),
{
    if agents.len() == 0 {
        0
    } else if agents[0].pane_id@ == pane {
        0
    } else {
        1 + first_with_pane(agents.drop_first(), pane)
    }
}

proof fn lemma_first_with_pane(agents: Seq<AgentPane>, pane: Seq<char>, i: int)
    requires
        0 <= i <= agents.len(),
        forall|k: int| 0 <= k < i ==> (#[trigger] agents[k]).pane_id@ != pane,
        i == agents.len() || agents[i].pane_id@ == pane,
    ensures
        first_with_pane(agents, pane) == i,
    decreases i,
{
    if i > 0 {
        assert forall|k: int| 0 <= k < i - 1 implies (#[trigger] agents.drop_first()[k]).pane_id@ != pane by {
            assert(agents.drop_first()[k] == agents[k + 1]);
        }
        lemma_first_with_pane(agents.drop_first(), pane, i - 1);
    }
}

/// Whether agent `i` of `v` comes before agent `j`: higher state change
/// sequence first, then earlier in the previous list, then earlier in `v`.
pub open spec fn rank_before(v: Seq<AgentPane>, previous: Seq<AgentPane>, i: int, j: int) -> bool {
    let si = v[i].runtime.state_change_seq;
    let sj = v[j].runtime.state_change_seq;
    let pi = previous_position(previous, v[i].pane_id@);
    let pj = previous_position(previous, v[j].pane_id@);
    si > sj || (si == sj && (pi < pj || (pi == pj && i < j)))
}

/// `r` holds the agents of `v`, each once, in ranking order.
pub open spec fn ranked(v: Seq<AgentPane>, previous: Seq<AgentPane>, r: Seq<AgentPane>) -> bool {
    exists|order: Seq<int>| #![trigger order.len()]
        order.len() == v.len() && r.len() == v.len()
        && (forall|k: int| 0 <= k < order.len() ==> 0 <= #[trigger] order[k] < v.len() && r[k] == v[order[k]])
        && (forall|a: int, b: int| 0 <= a < b < order.len() ==> rank_before(v, previous, #[trigger] order[a], #[trigger] order[b]))
}

proof fn lemma_rank_total(v: Seq<AgentPane>, previous: Seq<AgentPane>, i: int, j: int)
    requires
        i != j,
    ensures
        rank_before(v, previous, i, j) || rank_before(v, previous, j, i),
{
}

proof fn lemma_rank_transitive(v: Seq<AgentPane>, previous: Seq<AgentPane>, i: int, j: int, k: int)
    requires
        rank_before(v, previous, i, j),
        rank_before(v, previous, j, k),
    ensures
        rank_before(v, previous, i, k),
{
}

/// The first position of an agent with the pane `pane`, or `usize::MAX`.
fn position_in(previous: &Vec<AgentPane>, pane: &String) -> (r: usize)
    ensures
        r == previous_position(previous@, pane@),
{
    let mut i: usize = 0;
    while i < previous.len()
        invariant
            i <= previous.len(),
            forall|k: int| 0 <= k < i ==> (#[trigger] previous@[k]).pane_id@ != pane@,
        decreases previous.len() - i,
    {
        if previous[i].pane_id == *pane {
            proof {
                lemma_first_with_pane(previous@, pane@, i as int);
            }
            return i;
        }
        i = i + 1;
    }
    proof {
        lemma_first_with_pane(previous@, pane@, i as int);
    }
    usize::MAX
}

/// Orders the agents of a snapshot: higher state change sequence first, then
/// as they were listed before, then as the snapshot listed them.
pub fn rank_agents(v: &Vec<AgentPane>, previous: &Vec<AgentPane>) -> (r: Vec<AgentPane>)
    ensures
        ranked(v@, previous@, r@),
{
    let mut positions: Vec<usize> = Vec::new();
    let mut i: usize = 0;
    while i < v.len()
        invariant
            i <= v.len(),
            positions@.len() == i,
            forall|k: int| 0 <= k < i ==> #[trigger] positions@[k] == previous_position(previous@, v@[k].pane_id@),
        decreases v.len() - i,
    {
        positions.push(position_in(previous, &v[i].pane_id));
        i = i + 1;
    }
    let mut order: Vec<usize> = Vec::new();
    let mut i: usize = 0;
    while i < v.len()
        invariant
            i <= v.len(),
            positions@.len() == v.len(),
            forall|k: int| 0 <= k < v.len() ==> #[trigger] positions@[k] == previous_position(previous@, v@[k].pane_id@),
            order@.len() == i,
            forall|k: int| 0 <= k < order@.len() ==> #[trigger] order@[k] < i,
            forall|a: int, b: int| 0 <= a < b < order@.len() ==> rank_before(v@, previous@, #[trigger] order@[a] as int, #[trigger] order@[b] as int),
        decreases v.len() - i,
    {
        let mut p: usize = 0;
        while p < order.len() && before_in(v, &positions, order[p], i)
            invariant
                p <= order.len(),
                i < v.len(),
                positions@.len() == v.len(),
                forall|k: int| 0 <= k < v.len() ==> #[trigger] positions@[k] == previous_position(previous@, v@[k].pane_id@),
                forall|k: int| 0 <= k < order@.len() ==> #[trigger] order@[k] < i,
                forall|k: int| 0 <= k < p ==> rank_before(v@, previous@, #[trigger] order@[k] as int, i as int),
            decreases order.len() - p,
        {
            p = p + 1;
        }
        proof {
            if p < order@.len() {
                lemma_rank_total(v@, previous@, order@[p as int] as int, i as int);
            }
        }
        let ghost old_order = order@;
        order.insert(p, i);
        proof {
            assert forall|a: int, b: int| 0 <= a < b < order@.len() implies rank_before(v@, previous@, #[trigger] order@[a] as int, #[trigger] order@[b] as int) by {
                if b < p {
                    assert(order@[a] == old_order[a] && order@[b] == old_order[b]);
                } else if b == p {
                    assert(order@[a] == old_order[a]);
                } else if a == p {
                    assert(order@[b] == old_order[b - 1]);
                    if b - 1 > p {
                        assert(rank_before(v@, previous@, old_order[p as int] as int, old_order[b - 1] as int));
                        lemma_rank_transitive(v@, previous@, i as int, old_order[p as int] as int, old_order[b - 1] as int);
                    }
                } else if a < p {
                    assert(order@[a] == old_order[a] && order@[b] == old_order[b - 1]);
                } else {
                    assert(order@[a] == old_order[a - 1] && order@[b] == old_order[b - 1]);
                }
            }
        }
        i = i + 1;
    }
    let mut r: Vec<AgentPane> = Vec::new();
    let mut k: usize = 0;
    while k < order.len()
        invariant
            k <= order.len(),
            order@.len() == v.len(),
            forall|j: int| 0 <= j < order@.len() ==> #[trigger] order@[j] < v.len(),
            r@.len() == k,
            forall|j: int| 0 <= j < k ==> #[trigger] r@[j] == v@[order@[j] as int],
        decreases order.len() - k,
    {
        r.push(v[order[k]].duplicate());
        k = k + 1;
    }
    let ghost o = order@.map_values(|x: usize| x as int);
    assert(o.len() == v@.len());
    assert forall|a: int, b: int| 0 <= a < b < o.len() implies rank_before(v@, previous@, #[trigger] o[a], #[trigger] o[b]) by {
        assert(o[a] == order@[a] as int && o[b] == order@[b] as int);
    }
    assert forall|j: int| 0 <= j < o.len() implies 0 <= #[trigger] o[j] < v@.len() && r@[j] == v@[o[j]] by {
        assert(o[j] == order@[j] as int);
    }
    r
}

/// Whether agent `i` ranks before agent `j`, from the agents' previous positions.
fn before_in(v: &Vec<AgentPane>, positions: &Vec<usize>, i: usize, j: usize) -> (r: bool)
    requires
        i < v.len(),
        j < v.len(),
        positions@.len() == v.len(),
    ensures
        r == {
            let si = v@[i as int].runtime.state_change_seq;
            let sj = v@[j as int].runtime.state_change_seq;
            si > sj || (si == sj && (positions@[i as int] < positions@[j as int] || (positions@[i as int] == positions@[j as int] && i < j)))
        },
{
    let si = v[i].runtime.state_change_seq;
    let sj = v[j].runtime.state_change_seq;
    si > sj || (si == sj && (positions[i] < positions[j] || (positions[i] == positions[j] && i < j)))
}

/// Whether some agent has the pane `pane`.
fn has_pane(agents: &Vec<AgentPane>, pane: &String) -> (r: bool)
    ensures
        r == pane_observed(agents@, pane@),
{
    let mut i: usize = 0;
    while i < agents.len()
        invariant
            i <= agents.len(),
            forall|k: int| 0 <= k < i ==> (#[trigger] agents@[k]).pane_id@ != pane@,
        decreases agents.len() - i,
    {
        if agents[i].pane_id == *pane {
            return true;
        }
        i = i + 1;
    }
    false
}

/// The stashed panes that the snapshot still shows.
fn stashed_panes_after(ids: &Vec<String>, agents: &Vec<AgentPane>) -> (r: Vec<String>)
    ensures
        r@ == stashed_after(ids@, agents@),
{
    let mut kept: Vec<String> = Vec::new();
    let mut i: usize = 0;
    while i < ids.len()
        invariant
            i <= ids.len(),
            kept@ == ids@.take(i as int).filter(|p: String| pane_observed(agents@, p@)),
        decreases ids.len() - i,
    {
        assert(ids@.take(i + 1).drop_last() =~= ids@.take(i as int));
        if has_pane(agents, &ids[i]) {
            kept.push(ids[i].clone());
        }
        proof {
            reveal(Seq::filter);
        }
        i = i + 1;
    }
    assert(ids@.take(ids.len() as int) =~= ids@);
    kept
}

/// The agents of a snapshot that are neither being stashed nor stashed.
fn observed_agents_of(agents: &Vec<AgentPane>, pending_pane: &Option<String>, stashed: &Vec<String>) -> (r: Vec<AgentPane>)
    ensures
        r@ == observed_of(agents@, opt_view(*pending_pane), stashed@),
{
    let mut kept: Vec<AgentPane> = Vec::new();
    let mut i: usize = 0;
    while i < agents.len()
        invariant
            i <= agents.len(),
            kept@ == observed_of(agents@.take(i as int), opt_view(*pending_pane), stashed@),
        decreases agents.len() - i,
    {
        assert(agents@.take(i + 1).drop_last() =~= agents@.take(i as int));
        let pending = opt_is(pending_pane, &agents[i].pane_id);
        if !pending && !crate::keyed::text_listed(stashed, agents[i].pane_id.as_str()) {
            kept.push(agents[i].duplicate());
        }
        proof {
            reveal(Seq::filter);
        }
        i = i + 1;
    }
    assert(agents@.take(agents.len() as int) =~= agents@);
    kept
}

/// The observed agents the agent list shows.
fn visible_agents_of(observed: &Vec<AgentPane>, cross_workspace: bool, host_workspace_id: &Option<String>) -> (r: Vec<AgentPane>)
    ensures
        r@ == visible_of(observed@, cross_workspace, *host_workspace_id),
{
    if cross_workspace || host_workspace_id.is_none() {
        return duplicate_agents(observed);
    }
    let mut kept: Vec<AgentPane> = Vec::new();
    let mut i: usize = 0;
    while i < observed.len()
        invariant
            i <= observed.len(),
            host_workspace_id is Some,
            kept@ == observed@.take(i as int).filter(|a: AgentPane| opt_view(*host_workspace_id) == Some(a.workspace_id@)),
        decreases observed.len() - i,
    {
        assert(observed@.take(i + 1).drop_last() =~= observed@.take(i as int));
        if opt_is(host_workspace_id, &observed[i].workspace_id) {
            kept.push(observed[i].duplicate());
        }
        proof {
            reveal(Seq::filter);
        }
        i = i + 1;
    }
    assert(observed@.take(observed.len() as int) =~= observed@);
    kept
}

/// The conversation id of an agent's OpenCode session, if it reports one.
fn conversation_id(agent: &AgentPane) -> (r: Option<String>)
    ensures
        opt_view(r) == conversation_of(*agent),
{
    match &agent.runtime.session_timing_key {
        Some(AgentTimingKey::Session(identity)) => match OpenCodeConversationIdentity::from_agent_session(identity) {
            Some(c) => Some(c.session_id),
            None => None,
        },
        _ => None,
    }
}

/// The conversation ids of the agents, in order.
pub open spec fn conversation_ids(agents: Seq<AgentPane>) -> Seq<Seq<char>>
    decreases agents.len(),
{
    if agents.len() == 0 {
        seq![]
    } else {
        match conversation_of(agents.last()) {
            Some(id) => conversation_ids(agents.drop_last()).push(id),
            None => conversation_ids(agents.drop_last()),
        }
    }
}

/// The conversations that stay shown: those of the listed agents and the
/// scheduled run being previewed.
pub open spec fn active_ids(visible: Seq<AgentPane>, preview: Option<OpenCodeConversationIdentity>) -> Seq<Seq<char>> {
    conversation_ids(visible) + match preview {
        Some(p) => seq![p.session_id@],
        None => seq![],
    }
}

/// `listed` over a list of strings is membership of its ids.
pub proof fn lemma_listed_views(keys: Seq<String>, k: Seq<char>)
    ensures
        listed(keys, k) <==> crate::layout::views(keys).contains(k),
{
    if listed(keys, k) {
        let i = choose|i: int| 0 <= i < keys.len() && keys[i]@ == k;
        assert(crate::layout::views(keys)[i] == k);
    }
    if crate::layout::views(keys).contains(k) {
        let i = choose|i: int| 0 <= i < keys.len() && crate::layout::views(keys)[i] == k;
        assert(keys[i]@ == k);
    }
}

fn active_conversation_ids(visible: &Vec<AgentPane>, preview: &Option<OpenCodeConversationIdentity>) -> (r: Vec<String>)
    ensures
        crate::layout::views(r@) == active_ids(visible@, *preview),
{
    let mut ids: Vec<String> = Vec::new();
    let mut i: usize = 0;
    while i < visible.len()
        invariant
            i <= visible.len(),
            crate::layout::views(ids@) == conversation_ids(visible@.take(i as int)),
        decreases visible.len() - i,
    {
        assert(visible@.take(i + 1).drop_last() =~= visible@.take(i as int));
        if let Some(id) = conversation_id(&visible[i]) {
            ids.push(id);
        }
        assert(crate::layout::views(ids@) =~= conversation_ids(visible@.take(i + 1)));
        i = i + 1;
    }
    assert(visible@.take(visible.len() as int) =~= visible@);
    if let Some(p) = preview {
        ids.push(p.session_id.clone());
    }
    assert(crate::layout::views(ids@) =~= active_ids(visible@, *preview));
    ids
}

/// The session ids the agents report in their session keys, of any agent program, in order.
pub open spec fn session_values(agents: Seq<AgentPane>) -> Seq<Seq<char>>
    decreases agents.len(),
{
    if agents.len() == 0 {
        seq![]
    } else {
        match agents.last().runtime.session_timing_key {
            Some(AgentTimingKey::Session(identity)) => session_values(agents.drop_last()).push(identity.value@),
            _ => session_values(agents.drop_last()),
        }
    }
}

fn live_session_ids(agents: &Vec<AgentPane>) -> (r: Vec<String>)
    ensures
        crate::layout::views(r@) == session_values(agents@),
{
    let mut ids: Vec<String> = Vec::new();
    let mut i: usize = 0;
    while i < agents.len()
        invariant
            i <= agents.len(),
            crate::layout::views(ids@) == session_values(agents@.take(i as int)),
        decreases agents.len() - i,
    {
        assert(agents@.take(i + 1).drop_last() =~= agents@.take(i as int));
        match &agents[i].runtime.session_timing_key {
            Some(AgentTimingKey::Session(identity)) => {
                ids.push(identity.value.clone());
            },
            _ => {},
        }
        assert(crate::layout::views(ids@) =~= session_values(agents@.take(i + 1)));
        i = i + 1;
    }
    assert(agents@.take(agents.len() as int) =~= agents@);
    ids
}

/// The agent shown in Hunkle's tab after a snapshot: the displayed one while
/// it is still there, else the first agent of the list that lives there.
pub open spec fn displayed_after(
    agents: Seq<AgentPane>,
    displayed: Option<TimingKeyView>,
    host_workspace_id: Option<String>,
    host_tab_id: Option<String>,
) -> Option<TimingKeyView> {
    let present = match displayed {
        Some(k) => exists|i: int| 0 <= i < agents.len() && (#[trigger] agents[i]).key() == k && in_tab(agents[i], host_workspace_id, host_tab_id),
        None => false,
    };
    if present {
        displayed
    } else {
        let i = first_in_host_tab(agents, host_workspace_id, host_tab_id);
        if i < agents.len() {
            Some(agents[i].key())
        } else {
            None
        }
    }
}

/// The index of the first agent in Hunkle's tab, or the length of the list.
pub open spec fn first_in_host_tab(agents: Seq<AgentPane>, host_workspace_id: Option<String>, host_tab_id: Option<String>) -> int
    decreases agents.len(),
{
    if agents.len() == 0 {
        0
    } else if in_tab(agents[0], host_workspace_id, host_tab_id) {
        0
    } else {
        1 + first_in_host_tab(agents.drop_first(), host_workspace_id, host_tab_id)
    }
}

proof fn lemma_first_in_host_tab(agents: Seq<AgentPane>, w: Option<String>, t: Option<String>, i: int)
    requires
        0 <= i <= agents.len(),
        forall|k: int| 0 <= k < i ==> !in_tab(#[trigger] agents[k], w, t),
        i == agents.len() || in_tab(agents[i], w, t),
    ensures
        first_in_host_tab(agents, w, t) == i,
    decreases i,
{
    if i > 0 {
        assert forall|k: int| 0 <= k < i - 1 implies !in_tab(#[trigger] agents.drop_first()[k], w, t) by {
            assert(agents.drop_first()[k] == agents[k + 1]);
        }
        lemma_first_in_host_tab(agents.drop_first(), w, t, i - 1);
    }
}

/// The view of an optional key.
pub open spec fn key_view(k: Option<AgentTimingKey>) -> Option<TimingKeyView> {
    match k {
        Some(k) => Some(k@),
        None => None,
    }
}

/// The keys whose saved layouts pruning spares: the listed agents' and the displayed agent's.
pub open spec fn layout_keys_spared(agents: Seq<AgentPane>, displayed: Option<AgentTimingKey>, k: TimingKeyView) -> bool {
    key_observed(agents, k) || key_view(displayed) == Some(k)
}

impl<W: Fn(&Vec<StashedAgent>) -> Result<(), String>> HerdrSession<W> {
    /// Keeps the displayed agent while it is in Hunkle's tab, else takes the
    /// first agent there.
    fn refresh_displayed_agent(&mut self)
        requires
            old(self).wf(),
        ensures
            final(self).wf(),
            Self::same_settings(*old(self), *final(self)),
            key_view(final(self).displayed_agent_key) == displayed_after(
                old(self).agents@,
                key_view(old(self).displayed_agent_key),
                old(self).host_workspace_id,
                old(self).host_tab_id,
            ),
            Self::same_but_displayed(*old(self), *final(self)),
    {
        let ghost spec_present = match key_view(self.displayed_agent_key) {
            Some(k) => exists|i: int| 0 <= i < self.agents@.len() && (#[trigger] self.agents@[i]).key() == k && in_tab(self.agents@[i], self.host_workspace_id, self.host_tab_id),
            None => false,
        };
        let mut present = false;
        if let Some(k) = &self.displayed_agent_key {
            let mut i: usize = 0;
            while i < self.agents.len()
                invariant
                    i <= self.agents.len(),
                    *self == *old(self),
                    key_view(self.displayed_agent_key) == Some(k@),
                    present == exists|j: int| 0 <= j < i && (#[trigger] self.agents@[j]).key() == k@ && in_tab(self.agents@[j], self.host_workspace_id, self.host_tab_id),
                decreases self.agents.len() - i,
            {
                if self.agents[i].runtime.timing_key.same_as(k) && self.agent_is_in_host_tab_by_agent(&self.agents[i]) {
                    present = true;
                }
                i = i + 1;
            }
        }
        assert(present == spec_present);
        if present {
            return;
        }
        let mut i: usize = 0;
        while i < self.agents.len()
            invariant
                i <= self.agents.len(),
                *self == *old(self),
                old(self).wf(),
                !spec_present,
                spec_present == match key_view(old(self).displayed_agent_key) {
                    Some(k) => exists|i: int| 0 <= i < old(self).agents@.len() && (#[trigger] old(self).agents@[i]).key() == k && in_tab(old(self).agents@[i], old(self).host_workspace_id, old(self).host_tab_id),
                    None => false,
                },
                forall|k: int| 0 <= k < i ==> !in_tab(#[trigger] self.agents@[k], self.host_workspace_id, self.host_tab_id),
            decreases self.agents.len() - i,
        {
            if self.agent_is_in_host_tab_by_agent(&self.agents[i]) {
                proof {
                    lemma_first_in_host_tab(self.agents@, self.host_workspace_id, self.host_tab_id, i as int);
                }
                self.displayed_agent_key = Some(self.agents[i].runtime.timing_key.duplicate());
                return;
            }
            i = i + 1;
        }
        proof {
            lemma_first_in_host_tab(self.agents@, self.host_workspace_id, self.host_tab_id, i as int);
        }
        self.displayed_agent_key = None;
    }

    /// Keeps at most `MAX_AGENT_LAYOUTS` saved layouts, evicting the least
    /// recently used; the layouts of listed agents and of the displayed agent stay.
    pub fn prune_agent_layout_history(&mut self)
        requires
            old(self).wf(),
        ensures
            final(self).wf(),
            Self::same_settings(*old(self), *final(self)),
            old(self).agent_layouts@.len() <= MAX_AGENT_LAYOUTS ==> final(self).agent_layouts@ == old(self).agent_layouts@,
            kept_from(old(self).agent_layouts@, final(self).agent_layouts@),
            forall|k: TimingKeyView| old(self).agent_layouts@.dom().contains(k) && layout_keys_spared(old(self).agents@, old(self).displayed_agent_key, k)
                ==> #[trigger] final(self).agent_layouts@.dom().contains(k),
            old(self).agent_layouts@.len() > MAX_AGENT_LAYOUTS ==> final(self).agent_layouts@.len() >= MAX_AGENT_LAYOUTS,
            final(self).agent_layouts@.len() > MAX_AGENT_LAYOUTS ==> forall|k: TimingKeyView| #[trigger] final(self).agent_layouts@.dom().contains(k)
                ==> layout_keys_spared(old(self).agents@, old(self).displayed_agent_key, k),
            exists|spared: Seq<AgentTimingKey>| (forall|k: TimingKeyView| key_in(spared, k) <==> layout_keys_spared(old(self).agents@, old(self).displayed_agent_key, k))
                && crate::table::evicted_in_order(old(self).agent_layouts@, final(self).agent_layouts@, spared),
            Self::same_but_layouts(*old(self), *final(self)),
    {
        let mut relevant = crate::timing::agent_keys(&self.agents);
        let ghost listed_keys = relevant@;
        if let Some(k) = &self.displayed_agent_key {
            relevant.push(k.duplicate());
        }
        proof {
            assert forall|k: TimingKeyView| key_in(relevant@, k) <==> layout_keys_spared(self.agents@, self.displayed_agent_key, k) by {
                if key_in(relevant@, k) {
                    let i = choose|i: int| 0 <= i < relevant@.len() && relevant@[i]@ == k;
                    if i < listed_keys.len() {
                        assert(self.agents@[i].key() == k);
                    }
                }
                if key_observed(self.agents@, k) {
                    let i = choose|i: int| 0 <= i < self.agents@.len() && (#[trigger] self.agents@[i]).key() == k;
                    assert(relevant@[i]@ == k);
                }
                if key_view(self.displayed_agent_key) == Some(k) {
                    assert(relevant@[relevant@.len() - 1]@ == k);
                }
            }
        }
        let ghost before = self.agent_layouts@;
        self.agent_layouts.prune(&relevant, MAX_AGENT_LAYOUTS, false);
        proof {
            assert forall|k: TimingKeyView| before.dom().contains(k) && layout_keys_spared(old(self).agents@, old(self).displayed_agent_key, k)
                implies #[trigger] self.agent_layouts@.dom().contains(k) by {
                assert(key_in(relevant@, k));
            }
            assert forall|k: TimingKeyView| self.agent_layouts@.len() > MAX_AGENT_LAYOUTS && #[trigger] self.agent_layouts@.dom().contains(k)
                implies layout_keys_spared(old(self).agents@, old(self).displayed_agent_key, k) by {
                assert(key_in(relevant@, k));
            }
        }
    }
}

/// The queued messages whose agents are still observed.
pub open spec fn queued_after(queued: Map<TimingKeyView, String>, observed: Seq<AgentPane>) -> Map<TimingKeyView, String> {
    queued.restrict(queued.dom().filter(|k: TimingKeyView| key_observed(observed, k)))
}

/// The last card of a list of `n` cards, or the first when there are none.
pub open spec fn last_card(n: int) -> int {
    if n == 0 {
        0
    } else {
        n - 1
    }
}

impl<W: Fn(&Vec<StashedAgent>) -> Result<(), String>> HerdrSession<W> {
    /// Restricts a conversation table to the active conversations.
    fn retain_active<V>(table: &mut TextTable<V>, active: &Vec<String>, Ghost(ids): Ghost<Seq<Seq<char>>>)
        requires
            old(table).wf(),
            crate::layout::views(active@) == ids,
        ensures
            final(table).wf(),
            final(table)@ == old(table)@.restrict(old(table)@.dom().filter(|k: Seq<char>| ids.contains(k))),
    {
        table.retain_keys(active);
        proof {
            assert(old(table)@.dom().filter(|k: Seq<char>| listed(active@, k)) =~= old(table)@.dom().filter(
                |k: Seq<char>| ids.contains(k),
            )) by {
                assert forall|k: Seq<char>| listed(active@, k) <==> ids.contains(k) by {
                    lemma_listed_views(active@, k);
                }
            }
        }
    }

    /// Takes in an authoritative snapshot of Herdr's agents observed at `now_ms`.
    #[verifier::rlimit(80)]
    #[verifier::spinoff_prover]
    pub fn apply_agent_snapshot_at(&mut self, agents: Vec<AgentPane>, now_ms: u64)
        requires
            old(self).wf(),
        ensures
            final(self).wf(),
            Self::same_after_snapshot(*old(self), *final(self)),
            ({
                let stashed = stashed_after(old(self).stashed_pane_ids@, agents@);
                let pending_pane = match old(self).pending_agent_stash {
                    Some(p) => Some(p.agent.pane_id@),
                    None => None,
                };
                let observed = observed_of(agents@, pending_pane, stashed);
                let queued = queued_after(old(self).agent_prompts_on_idle@, observed);
                let visible = visible_of(observed, old(self).cross_workspace_agents, old(self).host_workspace_id);
                let active = active_ids(visible, old(self).scheduled_preview_identity);
                &&& final(self).stashed_pane_ids@ == stashed
                &&& final(self).observed_agents@ == observed
                &&& final(self).agent_prompts_on_idle@ == spec_take_idle(observed, queued).1
                &&& (queued.len() != old(self).agent_prompts_on_idle@.len() ==> (final(self).agent_prompt_notice matches Some(n)
                    && n@ == "Queued message cancelled because the agent departed"@))
                &&& (queued.len() == old(self).agent_prompts_on_idle@.len() ==> final(self).agent_prompt_notice == old(self).agent_prompt_notice)
                &&& ranked(visible, old(self).agents@, final(self).agents@)
                &&& final(self).latest_user_messages@ == old(self).latest_user_messages@.restrict(
                    old(self).latest_user_messages@.dom().filter(|k: Seq<char>| active.contains(k)))
                &&& final(self).latest_user_message_requests@ == old(self).latest_user_message_requests@.restrict(
                    old(self).latest_user_message_requests@.dom().filter(|k: Seq<char>| active.contains(k)))
                &&& final(self).latest_user_message_refreshes@ == old(self).latest_user_message_refreshes@.restrict(
                    old(self).latest_user_message_refreshes@.dom().filter(|k: Seq<char>| active.contains(k)))
                &&& final(self).latest_user_message_statuses@ == old(self).latest_user_message_statuses@.restrict(
                    old(self).latest_user_message_statuses@.dom().filter(|k: Seq<char>| active.contains(k)))
                &&& final(self).latest_user_message_errors@ == old(self).latest_user_message_errors@.restrict(
                    old(self).latest_user_message_errors@.dom().filter(|k: Seq<char>| active.contains(k)))
                &&& final(self).scheduled_conversation_errors@ == old(self).scheduled_conversation_errors@.restrict(
                    old(self).scheduled_conversation_errors@.dom().filter(|k: Seq<char>| active.contains(k)))
                &&& forall|k: TimingKeyView| #[trigger] final(self).agent_prompt_errors@.dom().contains(k)
                    ==> key_observed(visible, k) && old(self).agent_prompt_errors@.dom().contains(k)
                    && final(self).agent_prompt_errors@[k] == old(self).agent_prompt_errors@[k]
                &&& exists|keys: Seq<AgentTimingKey>| #![auto]
                    keys.len() == visible.len() && (forall|i: int| 0 <= i < keys.len() ==> keys[i] == visible[i].runtime.timing_key)
                    && crate::timing::pruned(
                        crate::timing::spec_update(crate::timing::spec_migrate(old(self).agent_timings@, visible), visible, now_ms),
                        final(self).agent_timings@,
                        keys,
                    )
                &&& key_view(final(self).displayed_agent_key) == displayed_after(
                    final(self).agents@,
                    key_view(old(self).displayed_agent_key),
                    old(self).host_workspace_id,
                    old(self).host_tab_id,
                )
                &&& kept_from(old(self).agent_layouts@, final(self).agent_layouts@)
                &&& forall|k: TimingKeyView| old(self).agent_layouts@.dom().contains(k) && layout_keys_spared(final(self).agents@, final(self).displayed_agent_key, k)
                    ==> #[trigger] final(self).agent_layouts@.dom().contains(k)
                &&& final(self).agent_scroll == if old(self).agent_scroll <= last_card(card_groups(final(self).agents@).len() as int) {
                    old(self).agent_scroll as int
                } else {
                    last_card(card_groups(final(self).agents@).len() as int)
                }
                &&& (old(self).agent_stash_running ==> final(self).stash == old(self).stash)
            }),
    {
        let stashed = stashed_panes_after(&self.stashed_pane_ids, &agents);
        self.stashed_pane_ids = stashed;
        let pending_pane: Option<String> = match &self.pending_agent_stash {
            Some(p) => Some(p.agent.pane_id.clone()),
            None => None,
        };
        let observed = observed_agents_of(&agents, &pending_pane, &self.stashed_pane_ids);
        self.observed_agents = duplicate_agents(&observed);
        let observed_keys = crate::timing::agent_keys(&observed);
        let queued_before = self.agent_prompts_on_idle.len();
        let ghost q0 = self.agent_prompts_on_idle@;
        self.agent_prompts_on_idle.retain_listed(&observed_keys);
        proof {
            assert(q0.dom().filter(|k: TimingKeyView| key_in(observed_keys@, k)) =~= q0.dom().filter(
                |k: TimingKeyView| key_observed(observed@, k),
            )) by {
                assert forall|k: TimingKeyView| key_in(observed_keys@, k) <==> key_observed(observed@, k) by {
                    if key_in(observed_keys@, k) {
                        let i = choose|i: int| 0 <= i < observed_keys@.len() && observed_keys@[i]@ == k;
                        assert(observed@[i].key() == k);
                    }
                    if key_observed(observed@, k) {
                        let i = choose|i: int| 0 <= i < observed@.len() && (#[trigger] observed@[i]).key() == k;
                        assert(observed_keys@[i]@ == k);
                    }
                }
            }
        }
        if self.agent_prompts_on_idle.len() != queued_before {
            self.agent_prompt_notice = Some(String::from_str("Queued message cancelled because the agent departed"));
        }
        self.bind_legacy_scheduled_agents();
        let visible = visible_agents_of(&observed, self.cross_workspace_agents, &self.host_workspace_id);
        let active = active_conversation_ids(&visible, &self.scheduled_preview_identity);
        let ghost ids = active_ids(visible@, self.scheduled_preview_identity);
        Self::retain_active(&mut self.latest_user_messages, &active, Ghost(ids));
        Self::retain_active(&mut self.latest_user_message_requests, &active, Ghost(ids));
        Self::retain_active(&mut self.latest_user_message_refreshes, &active, Ghost(ids));
        Self::retain_active(&mut self.latest_user_message_statuses, &active, Ghost(ids));
        Self::retain_active(&mut self.latest_user_message_errors, &active, Ghost(ids));
        let visible_keys = crate::timing::agent_keys(&visible);
        let ghost e0 = self.agent_prompt_errors@;
        self.agent_prompt_errors.retain_listed(&visible_keys);
        proof {
            assert forall|k: TimingKeyView| #[trigger] self.agent_prompt_errors@.dom().contains(k) implies key_observed(visible@, k) by {
                let i = choose|i: int| 0 <= i < visible_keys@.len() && visible_keys@[i]@ == k;
                assert(visible@[i].key() == k);
            }
        }
        Self::retain_active(&mut self.scheduled_conversation_errors, &active, Ghost(ids));
        update_snapshot(&mut self.agent_timings, &visible, now_ms);
        if self.agent_timing_persisted {
            let submitted = duplicate_timings(&self.agent_timings);
            self.actions.push(
                SessionAction::PersistTimings(
                    Request {
                        submitted,
                        clear_generation: self.agent_timing_clear_generation,
                        operation: Operation::Snapshot { agents: duplicate_agents(&visible), now_ms },
                    },
                ),
            );
        }
        let ranked_agents = rank_agents(&visible, &self.agents);
        self.agents = ranked_agents;
        let ghost e1 = self.agent_prompt_errors@;
        self.dispatch_idle_agent_prompts();
        if !self.agent_stash_running {
            let live = live_session_ids(&self.agents);
            let _ = self.stash.remove_live(&live, &self.stash_writer);
        }
        self.refresh_displayed_agent();
        self.prune_agent_layout_history();
        let last = self.agent_card_count();
        let last = if last == 0 { 0 } else { last - 1 };
        if self.agent_scroll > last {
            self.agent_scroll = last;
        }
    }
}

/// The label a scheduled task's agents are named after.
pub open spec fn task_label(task: ScheduledTask) -> Seq<char> {
    "Hunkle: "@ + task.title@ + " #"@ + crate::client::signed_decimal(task.id as int)
}

/// Where an agent works: its destination, else its directory.
pub open spec fn agent_path(a: AgentPane) -> Option<Seq<char>> {
    match a.destination_cwd {
        Some(d) => Some(d@),
        None => opt_view(a.cwd),
    }
}

/// Why the agent `a` cannot be stashed, if it cannot: it reported no working
/// directory; it reported the session of another harness than OpenCode; or
/// it reported no session and is no OpenCode agent with a title to find it by.
pub open spec fn stash_refusal(a: AgentPane) -> Option<Seq<char>> {
    if agent_path(a) is None {
        Some("Agent has not reported its working directory"@)
    } else {
        match a.runtime.session_timing_key {
            Some(AgentTimingKey::Session(i)) => if i.agent@ == "opencode"@ {
                None
            } else {
                Some(a.runtime.name@ + " sessions cannot be restored yet"@)
            },
            _ => if a.runtime.name@ == "opencode"@ {
                if a.runtime.session_name is None {
                    Some("OpenCode session could not be identified without its title"@)
                } else {
                    None
                }
            } else {
                Some("Agent has not reported a resumable session"@)
            },
        }
    }
}

/// Whether an agent looks like the agent a legacy scheduled run started: it
/// carries one of the run's agent names and works in the task's destination.
pub open spec fn is_candidate(a: AgentPane, name: Seq<char>, run_name: Seq<char>, destination: Seq<char>) -> bool {
    (a.instance_name matches Some(n) && (n@ == name || n@ == run_name)) && agent_path(a) == Some(destination)
}

/// The indices of the candidate agents, in order.
pub open spec fn candidates(agents: Seq<AgentPane>, name: Seq<char>, run_name: Seq<char>, destination: Seq<char>) -> Seq<int>
    decreases agents.len(),
{
    if agents.len() == 0 {
        seq![]
    } else if is_candidate(agents.last(), name, run_name, destination) {
        candidates(agents.drop_last(), name, run_name, destination).push(agents.len() - 1)
    } else {
        candidates(agents.drop_last(), name, run_name, destination)
    }
}

/// The index of the first task with the id `id`, or the length of the list.
pub open spec fn first_task(tasks: Seq<ScheduledTask>, id: i64) -> int
    decreases tasks.len(),
{
    if tasks.len() == 0 {
        0
    } else if tasks[0].id == id {
        0
    } else {
        1 + first_task(tasks.drop_first(), id)
    }
}

/// The observed agent a legacy run runs in: the agent in the run's pane, else
/// the only agent named after the run's task in its destination.
pub open spec fn legacy_agent(observed: Seq<AgentPane>, tasks: Seq<ScheduledTask>, run: ScheduledRun) -> Option<int> {
    let exact = match run.pane_id {
        Some(p) => if first_with_pane(observed, p@) < observed.len() {
            Some(first_with_pane(observed, p@))
        } else {
            None
        },
        None => None,
    };
    match exact {
        Some(i) => Some(i),
        None => {
            let t = first_task(tasks, run.task_id);
            if 0 <= t < tasks.len() {
                let label = task_label(tasks[t]);
                let c = candidates(
                    observed,
                    crate::client::spec_scheduler_agent_name(label),
                    crate::client::spec_scheduler_run_agent_name(label, run.id as int),
                    tasks[t].destination@,
                );
                if c.len() == 1 {
                    Some(c[0])
                } else {
                    None
                }
            } else {
                None
            }
        },
    }
}

/// A run after binding it to the agent `a`: its agent when it had none and the
/// agent reports a terminal, its session when it had none and the agent runs
/// an OpenCode session.
pub open spec fn bound_run(run: ScheduledRun, a: AgentPane) -> ScheduledRun {
    let with_agent = if run.terminal_id is None && a.terminal_id is Some {
        ScheduledRun { pane_id: Some(a.pane_id), terminal_id: a.terminal_id, ..run }
    } else {
        run
    };
    if run.session_id is None && conversation_of(a) is Some {
        ScheduledRun { session_id: Some(choose|s: String| s@ == conversation_of(a).unwrap()), ..with_agent }
    } else {
        with_agent
    }
}

/// Whether the run after binding is `after`.
pub open spec fn run_bound_as(observed: Seq<AgentPane>, tasks: Seq<ScheduledTask>, before: ScheduledRun, after: ScheduledRun) -> bool {
    match legacy_agent(observed, tasks, before) {
        None => after == before,
        Some(i) => {
            let a = observed[i];
            &&& after.id == before.id && after.task_id == before.task_id
            &&& after.created_at_ms == before.created_at_ms && after.status == before.status
            &&& after.error == before.error
            &&& if before.terminal_id is None && a.terminal_id is Some {
                after.pane_id == Some(a.pane_id) && after.terminal_id == a.terminal_id
            } else {
                after.pane_id == before.pane_id && after.terminal_id == before.terminal_id
            }
            &&& if before.session_id is None && conversation_of(a) is Some {
                opt_view(after.session_id) == conversation_of(a)
            } else {
                after.session_id == before.session_id
            }
        },
    }
}

/// The index of the first task with the id `id`, or the length of the list.
fn find_task(tasks: &Vec<ScheduledTask>, id: i64) -> (r: usize)
    ensures
        r == first_task(tasks@, id),
        r <= tasks@.len(),
{
    let mut i: usize = 0;
    while i < tasks.len()
        invariant
            i <= tasks.len(),
            forall|k: int| 0 <= k < i ==> (#[trigger] tasks@[k]).id != id,
        decreases tasks.len() - i,
    {
        if tasks[i].id == id {
            proof {
                lemma_first_task(tasks@, id, i as int);
            }
            return i;
        }
        i = i + 1;
    }
    proof {
        lemma_first_task(tasks@, id, i as int);
    }
    i
}

proof fn lemma_first_task(tasks: Seq<ScheduledTask>, id: i64, i: int)
    requires
        0 <= i <= tasks.len(),
        forall|k: int| 0 <= k < i ==> (#[trigger] tasks[k]).id != id,
        i == tasks.len() || tasks[i].id == id,
    ensures
        first_task(tasks, id) == i,
    decreases i,
{
    if i > 0 {
        assert forall|k: int| 0 <= k < i - 1 implies (#[trigger] tasks.drop_first()[k]).id != id by {
            assert(tasks.drop_first()[k] == tasks[k + 1]);
        }
        lemma_first_task(tasks.drop_first(), id, i - 1);
    }
}

/// The index of the first agent with the pane `pane`, or the length of the list.
fn find_pane(agents: &Vec<AgentPane>, pane: &String) -> (r: usize)
    ensures
        r == first_with_pane(agents@, pane@),
        r <= agents@.len(),
{
    let mut i: usize = 0;
    while i < agents.len()
        invariant
            i <= agents.len(),
            forall|k: int| 0 <= k < i ==> (#[trigger] agents@[k]).pane_id@ != pane@,
        decreases agents.len() - i,
    {
        if agents[i].pane_id == *pane {
            proof {
                lemma_first_with_pane(agents@, pane@, i as int);
            }
            return i;
        }
        i = i + 1;
    }
    proof {
        lemma_first_with_pane(agents@, pane@, i as int);
    }
    i
}

/// The label of a task's agents.
fn label_of(task: &ScheduledTask) -> (r: String)
    ensures
        r@ == task_label(*task),
{
    let mut label = String::from_str("Hunkle: ");
    append_str(&mut label, task.title.as_str());
    append_str(&mut label, " #");
    let id = crate::client::i64_decimal(task.id);
    append_str(&mut label, id.as_str());
    label
}

/// The only candidate agent, if there is exactly one.
fn unique_candidate(agents: &Vec<AgentPane>, name: &String, run_name: &String, destination: &String) -> (r: Option<usize>)
    ensures
        ({
            let c = candidates(agents@, name@, run_name@, destination@);
            if c.len() == 1 {
                r == Some(c[0] as usize)
            } else {
                r is None
            }
        }),
{
    let mut found: Option<usize> = None;
    let mut count: usize = 0;
    let mut i: usize = 0;
    while i < agents.len()
        invariant
            i <= agents.len(),
            count <= i,
            ({
                let c = candidates(agents@.take(i as int), name@, run_name@, destination@);
                &&& count == c.len()
                &&& (c.len() >= 1 ==> found == Some(c[0] as usize))
                &&& (c.len() == 0 ==> found is None)
            }),
        decreases agents.len() - i,
    {
        let ghost prev = candidates(agents@.take(i as int), name@, run_name@, destination@);
        assert(agents@.take(i + 1).drop_last() =~= agents@.take(i as int));
        let a = &agents[i];
        let named = match &a.instance_name {
            Some(n) => *n == *name || *n == *run_name,
            None => false,
        };
        let at_destination = match &a.destination_cwd {
            Some(d) => *d == *destination,
            None => opt_is(&a.cwd, destination),
        };
        if named && at_destination {
            if count == 0 {
                found = Some(i);
            }
            count = count + 1;
            proof {
                let c = candidates(agents@.take(i + 1), name@, run_name@, destination@);
                assert(c == prev.push(i as int));
                if prev.len() >= 1 {
                    assert(c[0] == prev[0]);
                }
            }
        }
        i = i + 1;
    }
    assert(agents@.take(agents.len() as int) =~= agents@);
    if count == 1 {
        found
    } else {
        None
    }
}

impl<W: Fn(&Vec<StashedAgent>) -> Result<(), String>> HerdrSession<W> {
    /// The observed agent a legacy scheduled run runs in, if any.
    fn legacy_agent_of(&self, tasks: &Vec<ScheduledTask>, run: &ScheduledRun) -> (r: Option<usize>)
        ensures
            r is Some <==> legacy_agent(self.observed_agents@, tasks@, *run) is Some,
            r matches Some(i) ==> i < self.observed_agents@.len() && legacy_agent(self.observed_agents@, tasks@, *run) == Some(i as int),
    {
        if let Some(p) = &run.pane_id {
            let i = find_pane(&self.observed_agents, p);
            if i < self.observed_agents.len() {
                return Some(i);
            }
        }
        let t = find_task(tasks, run.task_id);
        if t >= tasks.len() {
            return None;
        }
        let label = label_of(&tasks[t]);
        let name = scheduler_agent_name(label.as_str());
        let run_name = scheduler_run_agent_name(label.as_str(), run.id);
        let r = unique_candidate(&self.observed_agents, &name, &run_name, &tasks[t].destination);
        let n = self.observed_agents.len();
        proof {
            lemma_candidates_in_range(self.observed_agents@, name@, run_name@, tasks@[t as int].destination@);
            let c = candidates(self.observed_agents@, name@, run_name@, tasks@[t as int].destination@);
            if c.len() == 1 {
                assert(0 <= c[0] < self.observed_agents@.len());
                assert((c[0] as usize) as int == c[0]);
            }
        }
        r
    }

    /// Binds the scheduled runs that predate agent tracking to the observed
    /// agents they run in, and hands out the bindings to be recorded.
    pub fn bind_legacy_scheduled_agents(&mut self)
        requires
            old(self).wf(),
        ensures
            final(self).wf(),
            Self::same_settings(*old(self), *final(self)),
            Self::same_but_scheduler_and_actions(*old(self), *final(self)),
            match (old(self).scheduler, final(self).scheduler) {
                (Some(before), Some(after)) => after.tasks == before.tasks && after.runs@.len() == before.runs@.len()
                    && forall|i: int| 0 <= i < before.runs@.len() ==> run_bound_as(
                        old(self).observed_agents@,
                        before.tasks@,
                        #[trigger] before.runs@[i],
                        after.runs@[i],
                    ),
                (None, None) => true,
                _ => false,
            },
            final(self).actions@.take(old(self).actions@.len() as int) == old(self).actions@,
            forall|k: int| old(self).actions@.len() <= k < final(self).actions@.len() ==> (#[trigger] final(self).actions@[k] is BindScheduledAgent
                || final(self).actions@[k] is BindScheduledSession),
    {
        let mut scheduler: Option<SchedulerView> = None;
        std::mem::swap(&mut scheduler, &mut self.scheduler);
        let mut view = match scheduler {
            Some(v) => v,
            None => {
                return;
            },
        };
        let ghost before = view.runs@;
        let ghost start = self.actions@;
        let mut i: usize = 0;
        while i < view.runs.len()
            invariant
                i <= view.runs.len(),
                view.runs@.len() == before.len(),
                self.wf(),
                self.scheduler is None,
                Self::same_but_scheduler_and_actions(*old(self), *self),
                old(self).scheduler is Some,
                view.tasks == old(self).scheduler.unwrap().tasks,
                before == old(self).scheduler.unwrap().runs@,
                forall|k: int| 0 <= k < i ==> run_bound_as(old(self).observed_agents@, view.tasks@, #[trigger] before[k], view.runs@[k]),
                forall|k: int| i <= k < before.len() ==> #[trigger] view.runs@[k] == before[k],
                self.actions@.take(start.len() as int) == start,
                start.len() <= self.actions@.len(),
                start == old(self).actions@,
                forall|k: int| start.len() <= k < self.actions@.len() ==> (#[trigger] self.actions@[k] is BindScheduledAgent
                    || self.actions@[k] is BindScheduledSession),
            decreases view.runs.len() - i,
        {
            let run = view.runs[i].duplicate();
            if run.terminal_id.is_none() || run.session_id.is_none() {
                if let Some(a) = self.legacy_agent_of(&view.tasks, &run) {
                    let agent = &self.observed_agents[a];
                    let mut updated = run.duplicate();
                    if run.terminal_id.is_none() {
                        if let Some(terminal) = &agent.terminal_id {
                            updated.pane_id = Some(agent.pane_id.clone());
                            updated.terminal_id = Some(terminal.clone());
                            let ghost prev = self.actions@;
                            self.actions.push(SessionAction::BindScheduledAgent {
                                run_id: run.id,
                                pane_id: agent.pane_id.clone(),
                                terminal_id: terminal.clone(),
                            });
                            assert(self.actions@.take(start.len() as int) =~= prev.take(start.len() as int));
                        }
                    }
                    if run.session_id.is_none() {
                        if let Some(session_id) = conversation_id(agent) {
                            updated.session_id = Some(session_id.clone());
                            let ghost prev = self.actions@;
                            self.actions.push(SessionAction::BindScheduledSession { run_id: run.id, session_id });
                            assert(self.actions@.take(start.len() as int) =~= prev.take(start.len() as int));
                        }
                    }
                    view.runs.set(i, updated);
                }
            }
            i = i + 1;
        }
        self.scheduler = Some(view);
    }
}

proof fn lemma_candidates_in_range(agents: Seq<AgentPane>, name: Seq<char>, run_name: Seq<char>, destination: Seq<char>)
    ensures
        forall|k: int| 0 <= k < candidates(agents, name, run_name, destination).len() ==> 0 <= #[trigger] candidates(agents, name, run_name, destination)[k] < agents.len(),
    decreases agents.len(),
{
    if agents.len() > 0 {
        lemma_candidates_in_range(agents.drop_last(), name, run_name, destination);
        let p = candidates(agents.drop_last(), name, run_name, destination);
        let c = candidates(agents, name, run_name, destination);
        assert forall|k: int| 0 <= k < c.len() implies 0 <= #[trigger] c[k] < agents.len() by {
            if k < p.len() {
                assert(c[k] == p[k]);
            }
        }
    }
}

/// A transcript as an agent card shows it.
pub struct AgentTranscript<'a> {
    pub identity: &'a str,
    pub revision: u64,
    pub messages: &'a [AgentUserMessage],
}

/// `n + 1`, wrapping to zero.
pub open spec fn wrapping_next(n: u64) -> u64 {
    if n == u64::MAX {
        0
    } else {
        (n + 1) as u64
    }
}

/// Whether an action fetches the transcript of `id`, allowing an unchanged answer or not.
pub open spec fn is_fetch_action(a: SessionAction, id: Seq<char>, allow_unchanged: bool) -> bool {
    match a {
        SessionAction::FetchTranscript { identity, allow_unchanged: u } => identity.session_id@ == id && u == allow_unchanged,
        _ => false,
    }
}

/// The first run with the id `run_id`, or the length of the list.
pub open spec fn first_run(runs: Seq<ScheduledRun>, run_id: i64) -> int
    decreases runs.len(),
{
    if runs.len() == 0 {
        0
    } else if runs[0].id == run_id {
        0
    } else {
        1 + first_run(runs.drop_first(), run_id)
    }
}

proof fn lemma_first_run(runs: Seq<ScheduledRun>, run_id: i64, i: int)
    requires
        0 <= i <= runs.len(),
        forall|k: int| 0 <= k < i ==> (#[trigger] runs[k]).id != run_id,
        i == runs.len() || runs[i].id == run_id,
    ensures
        first_run(runs, run_id) == i,
    decreases i,
{
    if i > 0 {
        assert forall|k: int| 0 <= k < i - 1 implies (#[trigger] runs.drop_first()[k]).id != run_id by {
            assert(runs.drop_first()[k] == runs[k + 1]);
        }
        lemma_first_run(runs.drop_first(), run_id, i - 1);
    }
}

fn find_run(runs: &[ScheduledRun], run_id: i64) -> (r: usize)
    ensures
        r == first_run(runs@, run_id),
        r <= runs@.len(),
{
    let mut i: usize = 0;
    while i < runs.len()
        invariant
            i <= runs.len(),
            forall|k: int| 0 <= k < i ==> (#[trigger] runs@[k]).id != run_id,
        decreases runs.len() - i,
    {
        if runs[i].id == run_id {
            proof {
                lemma_first_run(runs@, run_id, i as int);
            }
            return i;
        }
        i = i + 1;
    }
    proof {
        lemma_first_run(runs@, run_id, i as int);
    }
    i
}

/// Whether an agent is the one a scheduled run can be messaged through: it
/// is in the run's pane and runs the run's OpenCode session.
pub open spec fn is_run_prompt_agent(a: AgentPane, run: ScheduledRun) -> bool {
    run.pane_id matches Some(p) && a.pane_id@ == p@ && (run.session_id matches Some(s)
        && spec_agent_has_opencode_session(a, s@))
}

/// The first observed agent a scheduled run can be messaged through, or the length of the list.
pub open spec fn first_prompt_agent(agents: Seq<AgentPane>, run: ScheduledRun) -> int
    decreases agents.len(),
{
    if agents.len() == 0 {
        0
    } else if is_run_prompt_agent(agents[0], run) {
        0
    } else {
        1 + first_prompt_agent(agents.drop_first(), run)
    }
}

proof fn lemma_first_prompt_agent(agents: Seq<AgentPane>, run: ScheduledRun, i: int)
    requires
        0 <= i <= agents.len(),
        forall|k: int| 0 <= k < i ==> !is_run_prompt_agent(#[trigger] agents[k], run),
        i == agents.len() || is_run_prompt_agent(agents[i], run),
    ensures
        first_prompt_agent(agents, run) == i,
    decreases i,
{
    if i > 0 {
        assert forall|k: int| 0 <= k < i - 1 implies !is_run_prompt_agent(#[trigger] agents.drop_first()[k], run) by {
            assert(agents.drop_first()[k] == agents[k + 1]);
        }
        lemma_first_prompt_agent(agents.drop_first(), run, i - 1);
    }
}

/// Whether an agent is the one a scheduled run runs in: by its session when
/// the run knows it, else by its terminal, else by its pane.
pub open spec fn is_run_agent(a: AgentPane, run: ScheduledRun) -> bool {
    match run.session_id {
        Some(s) => spec_agent_has_opencode_session(a, s@),
        None => match run.terminal_id {
            Some(t) => opt_view(a.terminal_id) == Some(t@),
            None => opt_view(run.pane_id) == Some(a.pane_id@),
        },
    }
}

impl<W: Fn(&Vec<StashedAgent>) -> Result<(), String>> HerdrSession<W> {
    /// The elapsed time of the agent at `index`, in milliseconds.
    pub fn agent_elapsed_at(&self, index: usize, display: AgentTimeDisplay, now_ms: u64) -> (r: Option<u64>)
        requires
            self.wf(),
        ensures
            index >= self.agents@.len() ==> r is None,
            index < self.agents@.len() ==> if self.agent_timings@.dom().contains(self.agents@[index as int].key()) {
                r == Some(self.agent_timings@[self.agents@[index as int].key()].spec_elapsed_at(display, now_ms))
            } else {
                r is None
            },
    {
        if index >= self.agents.len() {
            return None;
        }
        match self.agent_timings.position(&self.agents[index].runtime.timing_key) {
            Some(p) => Some(self.agent_timings.entries[p].1.elapsed_at(display, now_ms)),
            None => None,
        }
    }

    /// The elapsed time of the agent at `index`, in milliseconds, now.
    pub fn agent_elapsed(&self, index: usize, display: AgentTimeDisplay) -> (r: Option<u64>)
        requires
            self.wf(),
        ensures
            index >= self.agents@.len() ==> r is None,
            index < self.agents@.len() ==> (r is Some <==> self.agent_timings@.dom().contains(self.agents@[index as int].key())),
            r matches Some(v) ==> index < self.agents@.len() && exists|now_ms: u64|
                v == #[trigger] self.agent_timings@[self.agents@[index as int].key()].spec_elapsed_at(display, now_ms),
    {
        let now_ms = unix_time_ms();
        let r = self.agent_elapsed_at(index, display, now_ms);
        if let Some(v) = r {
            assert(v == self.agent_timings@[self.agents@[index as int].key()].spec_elapsed_at(display, now_ms));
        }
        r
    }

    /// Stores a fetched transcript under a new revision, unless it holds the
    /// messages already stored. Reports whether it was stored.
    pub fn update_transcript(&mut self, identity: OpenCodeConversationIdentity, messages: Vec<AgentUserMessage>) -> (r: bool)
        requires
            old(self).wf(),
        ensures
            final(self).wf(),
            Self::same_settings(*old(self), *final(self)),
            r == !(old(self).latest_user_messages@.dom().contains(identity.session_id@)
                && messages_view(old(self).latest_user_messages@[identity.session_id@].messages@) == messages_view(messages@)),
            r ==> final(self).transcript_revision == wrapping_next(old(self).transcript_revision)
                && final(self).latest_user_messages@.dom() == old(self).latest_user_messages@.dom().insert(identity.session_id@)
                && final(self).latest_user_messages@[identity.session_id@].revision == final(self).transcript_revision
                && final(self).latest_user_messages@[identity.session_id@].messages == messages
                && forall|k: Seq<char>| k != identity.session_id@ && #[trigger] old(self).latest_user_messages@.dom().contains(k)
                    ==> final(self).latest_user_messages@[k] == old(self).latest_user_messages@[k],
            !r ==> final(self).latest_user_messages == old(self).latest_user_messages
                && final(self).transcript_revision == old(self).transcript_revision,
            Self::same_but_transcripts(*old(self), *final(self)),
    {
        if let Some(entry) = self.latest_user_messages.get(identity.session_id.as_str()) {
            if same_messages(&entry.messages, &messages) {
                return false;
            }
        }
        self.transcript_revision = if self.transcript_revision == u64::MAX {
            0
        } else {
            self.transcript_revision + 1
        };
        self.latest_user_messages.insert(
            identity.session_id,
            TranscriptEntry { revision: self.transcript_revision, messages },
        );
        true
    }

    /// Whether a transcript of the conversation `identity` is stored.
    pub fn has_transcript(&self, identity: &str) -> (r: bool)
        requires
            self.wf(),
        ensures
            r == self.latest_user_messages@.dom().contains(identity@),
    {
        self.latest_user_messages.contains_key(identity)
    }

    /// The stored transcript of the agent at `index`, when it runs an OpenCode session.
    pub fn agent_transcript(&self, index: usize) -> (r: Option<AgentTranscript<'_>>)
        requires
            self.wf(),
        ensures
            index >= self.agents@.len() ==> r is None,
            index < self.agents@.len() ==> match conversation_of(self.agents@[index as int]) {
                Some(id) => if self.latest_user_messages@.dom().contains(id) {
                    r matches Some(t) && t.identity@ == id && t.revision == self.latest_user_messages@[id].revision
                        && t.messages@ == self.latest_user_messages@[id].messages@
                } else {
                    r is None
                },
                None => r is None,
            },
    {
        if index >= self.agents.len() {
            return None;
        }
        let identity = match &self.agents[index].runtime.session_timing_key {
            Some(AgentTimingKey::Session(identity)) => identity,
            _ => {
                return None;
            },
        };
        let conversation = match OpenCodeConversationIdentity::from_agent_session(identity) {
            Some(c) => c,
            None => {
                return None;
            },
        };
        match self.latest_user_messages.get(conversation.session_id.as_str()) {
            Some(entry) => Some(
                AgentTranscript {
                    identity: identity.value.as_str(),
                    revision: entry.revision,
                    messages: entry.messages.as_slice(),
                },
            ),
            None => None,
        }
    }

    /// The stored messages of the agent at `index`.
    pub fn agent_user_messages(&self, index: usize) -> (r: Option<&[AgentUserMessage]>)
        requires
            self.wf(),
        ensures
            index >= self.agents@.len() ==> r is None,
            index < self.agents@.len() ==> match conversation_of(self.agents@[index as int]) {
                Some(id) => if self.latest_user_messages@.dom().contains(id) {
                    r matches Some(m) && m@ == self.latest_user_messages@[id].messages@
                } else {
                    r is None
                },
                None => r is None,
            },
    {
        match self.agent_transcript(index) {
            Some(t) => Some(t.messages),
            None => None,
        }
    }

    /// The error of the last transcript fetch of the agent at `index`.
    pub fn agent_user_message_error(&self, index: usize) -> (r: Option<&str>)
        requires
            self.wf(),
        ensures
            index >= self.agents@.len() ==> r is None,
            index < self.agents@.len() ==> match conversation_of(self.agents@[index as int]) {
                Some(id) => if self.latest_user_message_errors@.dom().contains(id) {
                    r matches Some(e) && e@ == self.latest_user_message_errors@[id]@
                } else {
                    r is None
                },
                None => r is None,
            },
    {
        if index >= self.agents.len() {
            return None;
        }
        match conversation_id(&self.agents[index]) {
            Some(id) => match self.latest_user_message_errors.get(id.as_str()) {
                Some(e) => Some(e.as_str()),
                None => None,
            },
            None => None,
        }
    }

    /// What `request_agent_latest_user_message_at` makes of the session at `now_ms`.
    pub open spec fn latest_request_done(before: Self, after: Self, index: usize, now_ms: u64) -> bool {
        &&& Self::same_settings(before, after)
        &&& after.agents == before.agents
        &&& ({
                    let go = index < before.agents@.len() && match conversation_of(before.agents@[index as int]) {
                        Some(id) => {
                            let status = before.agents@[index as int].runtime.status;
                            let allow = before.latest_user_messages@.dom().contains(id);
                            let needs = !allow || !(before.latest_user_message_statuses@.dom().contains(id)
                                && before.latest_user_message_statuses@[id] == status) || status == AgentStatus::Working;
                            needs && !before.latest_user_message_requests@.dom().contains(id)
                                && !(before.latest_user_message_refreshes@.dom().contains(id)
                                && now_ms < before.latest_user_message_refreshes@[id])
                        },
                        None => false,
                    };
                    if go {
                        let id = conversation_of(before.agents@[index as int]).unwrap();
                        let status = before.agents@[index as int].runtime.status;
                        &&& after.latest_user_message_requests@ == before.latest_user_message_requests@.insert(id, ())
                        &&& after.latest_user_message_errors@ == before.latest_user_message_errors@.remove(id)
                        &&& after.latest_user_message_refreshes@ == before.latest_user_message_refreshes@.insert(
                            id, sat_add(now_ms, AGENT_MESSAGE_REFRESH_INTERVAL_MS))
                        &&& after.latest_user_message_statuses@ == before.latest_user_message_statuses@.insert(id, status)
                        &&& after.actions@.len() == before.actions@.len() + 1
                        &&& after.actions@.take(before.actions@.len() as int) == before.actions@
                        &&& is_fetch_action(after.actions@.last(), id, before.latest_user_messages@.dom().contains(id))
                    } else {
                        &&& after.latest_user_message_requests == before.latest_user_message_requests
                        &&& after.latest_user_message_errors == before.latest_user_message_errors
                        &&& after.latest_user_message_refreshes == before.latest_user_message_refreshes
                        &&& after.latest_user_message_statuses == before.latest_user_message_statuses
                        &&& after.actions == before.actions
                    }
                })
    }

    /// Fetches the transcript of the agent at `index` when it may have
    /// changed: none is stored, the agent's status changed since the last
    /// fetch, or it works. No fetch starts while one runs or within
    /// `AGENT_MESSAGE_REFRESH_INTERVAL_MS` of the last.
    pub fn request_agent_latest_user_message_at(&mut self, index: usize, now_ms: u64)
        requires
            old(self).wf(),
        ensures
            final(self).wf(),
            Self::latest_request_done(*old(self), *final(self), index, now_ms),

    {
        if index >= self.agents.len() {
            return;
        }
        let id = match conversation_id(&self.agents[index]) {
            Some(id) => id,
            None => {
                return;
            },
        };
        let status = self.agents[index].runtime.status;
        let allow_unchanged = self.latest_user_messages.contains_key(id.as_str());
        let same_status = match self.latest_user_message_statuses.get(id.as_str()) {
            Some(s) => *s == status,
            None => false,
        };
        let needs_refresh = !allow_unchanged || !same_status || status == AgentStatus::Working;
        let waiting = match self.latest_user_message_refreshes.get(id.as_str()) {
            Some(at) => now_ms < *at,
            None => false,
        };
        if !needs_refresh || self.latest_user_message_requests.contains_key(id.as_str()) || waiting {
            return;
        }
        self.latest_user_message_requests.insert(id.clone(), ());
        self.latest_user_message_errors.remove(id.as_str());
        self.latest_user_message_refreshes.insert(id.clone(), now_ms.saturating_add(AGENT_MESSAGE_REFRESH_INTERVAL_MS));
        self.latest_user_message_statuses.insert(id.clone(), status);
        self.actions.push(
            SessionAction::FetchTranscript {
                identity: OpenCodeConversationIdentity { session_id: id },
                allow_unchanged,
            },
        );
        assert(self.actions@.take(old(self).actions@.len() as int) =~= old(self).actions@);
    }

    /// Fetches the transcript of the agent at `index` when it may have changed, now.
    pub fn request_agent_latest_user_message(&mut self, index: usize)
        requires
            old(self).wf(),
        ensures
            final(self).wf(),
            Self::same_settings(*old(self), *final(self)),
            final(self).agents == old(self).agents,
            exists|now_ms: u64| #[trigger] Self::latest_request_done(*old(self), *final(self), index, now_ms),
    {
        let now_ms = unix_time_ms();
        self.request_agent_latest_user_message_at(index, now_ms);
    }

    /// The first scheduled run the agent at some index of the list runs in.
    pub fn scheduled_run_agent_index(&self, run: &ScheduledRun) -> (r: Option<usize>)
        ensures
            match r {
                Some(i) => i < self.agents@.len() && is_run_agent(self.agents@[i as int], *run)
                    && forall|k: int| 0 <= k < i ==> !is_run_agent(#[trigger] self.agents@[k], *run),
                None => forall|k: int| 0 <= k < self.agents@.len() ==> !is_run_agent(#[trigger] self.agents@[k], *run),
            },
    {
        let mut i: usize = 0;
        while i < self.agents.len()
            invariant
                i <= self.agents.len(),
                forall|k: int| 0 <= k < i ==> !is_run_agent(#[trigger] self.agents@[k], *run),
            decreases self.agents.len() - i,
        {
            let agent = &self.agents[i];
            let matches = match &run.session_id {
                Some(s) => agent_has_opencode_session(agent, s.as_str()),
                None => match &run.terminal_id {
                    Some(t) => opt_is(&agent.terminal_id, t),
                    None => opt_is(&run.pane_id, &agent.pane_id),
                },
            };
            if matches {
                return Some(i);
            }
            i = i + 1;
        }
        None
    }

    /// The pane a scheduled run can be messaged through: the run's pane, while
    /// an observed agent there runs the run's OpenCode session.
    pub fn scheduled_run_prompt_pane(&self, run: &ScheduledRun) -> (r: Option<String>)
        ensures
            ({
                let i = first_prompt_agent(self.observed_agents@, *run);
                if i < self.observed_agents@.len() {
                    r matches Some(p) && p@ == self.observed_agents@[i].pane_id@
                } else {
                    r is None
                }
            }),
    {
        let mut i: usize = 0;
        while i < self.observed_agents.len()
            invariant
                i <= self.observed_agents.len(),
                forall|k: int| 0 <= k < i ==> !is_run_prompt_agent(#[trigger] self.observed_agents@[k], *run),
            decreases self.observed_agents.len() - i,
        {
            let agent = &self.observed_agents[i];
            let matches = match (&run.pane_id, &run.session_id) {
                (Some(p), Some(s)) => agent.pane_id == *p && agent_has_opencode_session(agent, s.as_str()),
                _ => false,
            };
            if matches {
                proof {
                    lemma_first_prompt_agent(self.observed_agents@, *run, i as int);
                }
                return Some(agent.pane_id.clone());
            }
            i = i + 1;
        }
        proof {
            lemma_first_prompt_agent(self.observed_agents@, *run, i as int);
        }
        None
    }

    /// Sends a message to the agent of a scheduled run.
    pub fn prompt_scheduled_run(&mut self, run_id: i64, prompt: String) -> (r: Result<(), String>)
        requires
            old(self).wf(),
        ensures
            final(self).wf(),
            Self::same_settings(*old(self), *final(self)),
            final(self).agents == old(self).agents,
            ({
                let runs = match old(self).scheduler {
                    Some(s) => s.runs@,
                    None => Seq::<ScheduledRun>::empty(),
                };
                let i = first_run(runs, run_id);
                if crate::text::trim(prompt@).len() == 0 {
                    r matches Err(e) && e@ == "Enter a message"@
                } else if old(self).scheduled_prompt_requests@.dom().contains(run_id) {
                    r matches Err(e) && e@ == "A message is already being sent to this run"@
                } else if i >= runs.len() {
                    r matches Err(e) && e@ == "Scheduled run is no longer available"@
                } else if first_prompt_agent(old(self).observed_agents@, runs[i]) >= old(self).observed_agents@.len() {
                    r matches Err(e) && e@ == "Scheduled run is no longer attached to its Herdr agent"@
                } else {
                    &&& r is Ok
                    &&& final(self).scheduled_prompt_requests@ == old(self).scheduled_prompt_requests@.insert(run_id, ())
                    &&& final(self).scheduled_prompt_errors@ == old(self).scheduled_prompt_errors@.remove(run_id)
                    &&& final(self).actions@.len() == old(self).actions@.len() + 1
                    &&& final(self).actions@.last() matches SessionAction::PromptScheduledRun { run_id: id, session_id, pane_id, prompt: p }
                    &&& id == run_id && opt_view(session_id) == opt_view(runs[i].session_id) && p@ == prompt@
                    &&& pane_id@ == old(self).observed_agents@[first_prompt_agent(old(self).observed_agents@, runs[i])].pane_id@
                }
            }),
            r is Err ==> final(self).actions == old(self).actions && final(self).scheduled_prompt_requests == old(self).scheduled_prompt_requests,
    {
        let chars = crate::text::chars_of(prompt.as_str());
        if crate::text::all_whitespace(&chars) {
            return Err(String::from_str("Enter a message"));
        }
        if self.scheduled_prompt_requests.contains_key(run_id) {
            return Err(String::from_str("A message is already being sent to this run"));
        }
        let runs = self.scheduled_runs();
        let i = find_run(runs, run_id);
        if i >= runs.len() {
            return Err(String::from_str("Scheduled run is no longer available"));
        }
        let pane_id = match self.scheduled_run_prompt_pane(&runs[i]) {
            Some(p) => p,
            None => {
                return Err(String::from_str("Scheduled run is no longer attached to its Herdr agent"));
            },
        };
        let session_id = clone_opt_string(&runs[i].session_id);
        self.scheduled_prompt_requests.insert(run_id, ());
        self.scheduled_prompt_errors.remove(run_id);
        self.actions.push(SessionAction::PromptScheduledRun { run_id, session_id, pane_id, prompt });
        Ok(())
    }

    pub fn scheduled_prompt_sending(&self, run_id: i64) -> (r: bool)
        requires
            self.wf(),
        ensures
            r == self.scheduled_prompt_requests@.dom().contains(run_id),
    {
        self.scheduled_prompt_requests.contains_key(run_id)
    }

    /// Whether the scheduled run `run_id` can be messaged now.
    pub fn scheduled_prompt_available(&self, run_id: i64) -> (r: bool)
        ensures
            ({
                let runs = match self.scheduler {
                    Some(s) => s.runs@,
                    None => Seq::<ScheduledRun>::empty(),
                };
                let i = first_run(runs, run_id);
                r == (i < runs.len() && first_prompt_agent(self.observed_agents@, runs[i]) < self.observed_agents@.len())
            }),
    {
        let runs = self.scheduled_runs();
        let i = find_run(runs, run_id);
        if i >= runs.len() {
            return false;
        }
        self.scheduled_run_prompt_pane(&runs[i]).is_some()
    }

    pub fn scheduled_prompt_error(&self, run_id: i64) -> (r: Option<&str>)
        requires
            self.wf(),
        ensures
            if self.scheduled_prompt_errors@.dom().contains(run_id) {
                r matches Some(e) && e@ == self.scheduled_prompt_errors@[run_id]@
            } else {
                r is None
            },
    {
        match self.scheduled_prompt_errors.get(run_id) {
            Some(e) => Some(e.as_str()),
            None => None,
        }
    }

    pub fn clear_scheduled_prompt_error(&mut self, run_id: i64)
        requires
            old(self).wf(),
        ensures
            final(self).wf(),
            Self::same_settings(*old(self), *final(self)),
            final(self).scheduled_prompt_errors@ == old(self).scheduled_prompt_errors@.remove(run_id),
            final(self).agents == old(self).agents,
    {
        self.scheduled_prompt_errors.remove(run_id);
    }

    pub fn scheduled_session_error(&self, run_id: i64) -> (r: Option<&str>)
        requires
            self.wf(),
        ensures
            if self.scheduled_session_errors@.dom().contains(run_id) {
                r matches Some(e) && e@ == self.scheduled_session_errors@[run_id]@
            } else {
                r is None
            },
    {
        match self.scheduled_session_errors.get(run_id) {
            Some(e) => Some(e.as_str()),
            None => None,
        }
    }

    /// What `resolve_scheduled_run_session_at` makes of the session at `now_ms`.
    pub open spec fn scheduled_session_resolved(before: Self, after: Self, run_id: i64, directory: String, prompt: String, run_created_at_ms: i64, now_ms: u64) -> bool {
        &&& Self::same_settings(before, after)
        &&& after.agents == before.agents
        &&& if before.scheduled_session_requests@.dom().contains(run_id)
                    || (before.scheduled_session_refreshes@.dom().contains(run_id) && now_ms < before.scheduled_session_refreshes@[run_id]) {
                    after.scheduled_session_requests == before.scheduled_session_requests
                        && after.actions == before.actions
                } else {
                    &&& after.scheduled_session_requests@ == before.scheduled_session_requests@.insert(run_id, ())
                    &&& after.scheduled_session_refreshes@ == before.scheduled_session_refreshes@.insert(run_id, sat_add(now_ms, AGENT_MESSAGE_REFRESH_INTERVAL_MS))
                    &&& after.scheduled_session_errors@ == before.scheduled_session_errors@.remove(run_id)
                    &&& after.actions@.len() == before.actions@.len() + 1
                    &&& after.actions@.last() matches SessionAction::ResolveScheduledSession { run_id: id, directory: d, prompt: p, run_created_at_ms: c }
                    &&& id == run_id && d@ == directory@ && p@ == prompt@ && c == run_created_at_ms
                }
    }

    /// Finds the OpenCode session a scheduled run started, unless that is
    /// under way or was tried within `AGENT_MESSAGE_REFRESH_INTERVAL_MS`.
    pub fn resolve_scheduled_run_session_at(&mut self, run_id: i64, directory: String, prompt: String, run_created_at_ms: i64, now_ms: u64)
        requires
            old(self).wf(),
        ensures
            final(self).wf(),
            Self::scheduled_session_resolved(*old(self), *final(self), run_id, directory, prompt, run_created_at_ms, now_ms),

    {
        let waiting = match self.scheduled_session_refreshes.get(run_id) {
            Some(at) => now_ms < *at,
            None => false,
        };
        if self.scheduled_session_requests.contains_key(run_id) || waiting {
            return;
        }
        self.scheduled_session_requests.insert(run_id, ());
        self.scheduled_session_refreshes.insert(run_id, now_ms.saturating_add(AGENT_MESSAGE_REFRESH_INTERVAL_MS));
        self.scheduled_session_errors.remove(run_id);
        self.actions.push(SessionAction::ResolveScheduledSession { run_id, directory, prompt, run_created_at_ms });
    }

    /// Finds the OpenCode session a scheduled run started, now.
    pub fn resolve_scheduled_run_session(&mut self, run_id: i64, directory: String, prompt: String, run_created_at_ms: i64)
        requires
            old(self).wf(),
        ensures
            final(self).wf(),
            Self::same_settings(*old(self), *final(self)),
            final(self).agents == old(self).agents,
            exists|now_ms: u64| #[trigger] Self::scheduled_session_resolved(*old(self), *final(self), run_id, directory, prompt, run_created_at_ms, now_ms),
    {
        let now_ms = unix_time_ms();
        self.resolve_scheduled_run_session_at(run_id, directory, prompt, run_created_at_ms, now_ms);
    }

    /// What `request_scheduled_conversation_at` makes of the session at `now_ms`.
    pub open spec fn scheduled_conversation_requested(before: Self, after: Self, session_id: &str, active: bool, now_ms: u64) -> bool {
        &&& Self::same_settings(before, after)
        &&& after.agents == before.agents
        &&& after.scheduled_preview_identity matches Some(p) && p.session_id@ == session_id@
        &&& if (before.latest_user_messages@.dom().contains(session_id@) && !active)
                    || before.latest_user_message_requests@.dom().contains(session_id@)
                    || (before.latest_user_message_refreshes@.dom().contains(session_id@) && now_ms < before.latest_user_message_refreshes@[session_id@]) {
                    after.latest_user_message_requests == before.latest_user_message_requests
                        && after.actions == before.actions
                } else {
                    &&& after.latest_user_message_requests@ == before.latest_user_message_requests@.insert(session_id@, ())
                    &&& after.latest_user_message_refreshes@ == before.latest_user_message_refreshes@.insert(session_id@, sat_add(now_ms, AGENT_MESSAGE_REFRESH_INTERVAL_MS))
                    &&& after.scheduled_conversation_errors@ == before.scheduled_conversation_errors@.remove(session_id@)
                    &&& after.actions@.len() == before.actions@.len() + 1
                    &&& after.actions@.last() matches SessionAction::FetchScheduledConversation { identity }
                    &&& identity.session_id@ == session_id@
                }
    }

    /// Previews the transcript of a scheduled run's session, fetching it when
    /// none is stored or the run is active, unless a fetch runs or was started
    /// within `AGENT_MESSAGE_REFRESH_INTERVAL_MS`.
    pub fn request_scheduled_conversation_at(&mut self, session_id: &str, active: bool, now_ms: u64)
        requires
            old(self).wf(),
        ensures
            final(self).wf(),
            Self::scheduled_conversation_requested(*old(self), *final(self), session_id, active, now_ms),

    {
        let identity = scheduled_conversation_identity(session_id);
        self.scheduled_preview_identity = Some(scheduled_conversation_identity(session_id));
        let waiting = match self.latest_user_message_refreshes.get(session_id) {
            Some(at) => now_ms < *at,
            None => false,
        };
        if (self.latest_user_messages.contains_key(session_id) && !active)
            || self.latest_user_message_requests.contains_key(session_id) || waiting {
            return;
        }
        self.latest_user_message_requests.insert(session_id.to_owned(), ());
        self.latest_user_message_refreshes.insert(session_id.to_owned(), now_ms.saturating_add(AGENT_MESSAGE_REFRESH_INTERVAL_MS));
        self.scheduled_conversation_errors.remove(session_id);
        self.actions.push(SessionAction::FetchScheduledConversation { identity });
    }

    /// Previews a scheduled run's transcript, fetching it when needed, now.
    pub fn request_scheduled_conversation(&mut self, session_id: &str, active: bool)
        requires
            old(self).wf(),
        ensures
            final(self).wf(),
            Self::same_settings(*old(self), *final(self)),
            final(self).agents == old(self).agents,
            exists|now_ms: u64| #[trigger] Self::scheduled_conversation_requested(*old(self), *final(self), session_id, active, now_ms),
    {
        let now_ms = unix_time_ms();
        self.request_scheduled_conversation_at(session_id, active, now_ms);
    }

    /// Fetches a scheduled run's transcript again unless a fetch runs.
    pub fn refresh_scheduled_conversation(&mut self, session_id: &str)
        requires
            old(self).wf(),
        ensures
            final(self).wf(),
            Self::same_settings(*old(self), *final(self)),
            Self::same_but_conversation_requests(*old(self), *final(self)),
            final(self).scheduled_preview_identity matches Some(p) && p.session_id@ == session_id@,
            if old(self).latest_user_message_requests@.dom().contains(session_id@) {
                final(self).latest_user_message_requests == old(self).latest_user_message_requests
                    && final(self).actions == old(self).actions
            } else {
                &&& final(self).latest_user_message_requests@ == old(self).latest_user_message_requests@.insert(session_id@, ())
                &&& final(self).latest_user_message_refreshes@ == old(self).latest_user_message_refreshes@.remove(session_id@)
                &&& final(self).scheduled_conversation_errors@ == old(self).scheduled_conversation_errors@.remove(session_id@)
                &&& final(self).actions@.len() == old(self).actions@.len() + 1
                &&& final(self).actions@.last() matches SessionAction::FetchScheduledConversation { identity }
                &&& identity.session_id@ == session_id@
            },
    {
        let identity = scheduled_conversation_identity(session_id);
        self.scheduled_preview_identity = Some(scheduled_conversation_identity(session_id));
        if self.latest_user_message_requests.contains_key(session_id) {
            return;
        }
        self.latest_user_message_requests.insert(session_id.to_owned(), ());
        self.latest_user_message_refreshes.remove(session_id);
        self.scheduled_conversation_errors.remove(session_id);
        self.actions.push(SessionAction::FetchScheduledConversation { identity });
    }

    /// The stored transcript of a scheduled run's session.
    pub fn scheduled_transcript(&self, session_id: &str) -> (r: Option<AgentTranscript<'_>>)
        requires
            self.wf(),
        ensures
            if self.latest_user_messages@.dom().contains(session_id@) {
                r matches Some(t) && t.identity@ == session_id@ && t.revision == self.latest_user_messages@[session_id@].revision
                    && t.messages@ == self.latest_user_messages@[session_id@].messages@
            } else {
                r is None
            },
    {
        match self.latest_user_messages.position(session_id) {
            Some(p) => {
                let (identity, entry) = &self.latest_user_messages.entries[p];
                Some(AgentTranscript { identity: identity.as_str(), revision: entry.revision, messages: entry.messages.as_slice() })
            },
            None => None,
        }
    }

    /// The stored messages of a scheduled run's session.
    pub fn scheduled_conversation(&self, session_id: &str) -> (r: Option<&[AgentUserMessage]>)
        requires
            self.wf(),
        ensures
            if self.latest_user_messages@.dom().contains(session_id@) {
                r matches Some(m) && m@ == self.latest_user_messages@[session_id@].messages@
            } else {
                r is None
            },
    {
        match self.scheduled_transcript(session_id) {
            Some(t) => Some(t.messages),
            None => None,
        }
    }

    pub fn scheduled_conversation_error(&self, session_id: &str) -> (r: Option<&str>)
        requires
            self.wf(),
        ensures
            if self.scheduled_conversation_errors@.dom().contains(session_id@) {
                r matches Some(e) && e@ == self.scheduled_conversation_errors@[session_id@]@
            } else {
                r is None
            },
    {
        match self.scheduled_conversation_errors.get(session_id) {
            Some(e) => Some(e.as_str()),
            None => None,
        }
    }
}

/// The file name of a path (`Path::file_name`, read as UTF-8), when it has one.
pub uninterp spec fn path_file_name(path: Seq<char>) -> Option<Seq<char>>;

#[verifier::external_body]
pub(crate) fn file_name_of(path: &str) -> (r: Option<String>)
    ensures
        opt_view(r) == path_file_name(path@),
{
    std::path::Path::new(path).file_name().and_then(|name| name.to_str()).map(str::to_owned)
}

/// What applying a completion reports to the poll.
pub struct CompletionEffect {
    pub changed: bool,
    pub notice: Option<String>,
    pub reopen_path: Option<Option<String>>,
    pub fullscreen_result: Option<Result<bool, String>>,
}

/// The message of a finished or failed stash.
pub open spec fn stash_notice(name: Seq<char>) -> Seq<char> {
    "Stashed agent "@ + name
}

/// Whether a completion's tables are consistent.
pub open spec fn completion_wf(c: Completion) -> bool {
    match c {
        Completion::AgentDisplay { result: Ok(r), .. } => r.pane_locations.wf(),
        _ => true,
    }
}

/// Whether a timing outcome's tables are consistent.
pub open spec fn outcome_wf(o: TimingOutcome) -> bool {
    match o {
        TimingOutcome::Completed { submitted, result, .. } => submitted.wf() && match result {
            Ok(p) => p.timings.wf(),
            Err(_) => true,
        },
        TimingOutcome::Stopped => true,
    }
}

fn prefixed(prefix: &str, text: &str) -> (r: String)
    ensures
        r@ == prefix@ + text@,
{
    let mut out = String::from_str(prefix);
    append_str(&mut out, text);
    out
}

impl<W: Fn(&Vec<StashedAgent>) -> Result<(), String>> HerdrSession<W> {
    /// Puts the agent being stashed back in the list, at its place or at the end.
    pub fn restore_pending_agent_stash(&mut self)
        requires
            old(self).wf(),
        ensures
            final(self).wf(),
            Self::same_settings(*old(self), *final(self)),
            final(self).pending_agent_stash is None,
            match old(self).pending_agent_stash {
                None => final(self).agents == old(self).agents,
                Some(p) => {
                    let at = if p.index <= old(self).agents@.len() { p.index as int } else { old(self).agents@.len() as int };
                    final(self).agents@ == old(self).agents@.insert(at, p.agent)
                },
            },
            Self::same_but_agents_and_pending(*old(self), *final(self)),
    {
        let mut pending: Option<PendingAgentStash> = None;
        std::mem::swap(&mut pending, &mut self.pending_agent_stash);
        match pending {
            None => {},
            Some(p) => {
                let index = if p.index <= self.agents.len() { p.index } else { self.agents.len() };
                self.agents.insert(index, p.agent);
            },
        }
    }

    /// Stashes the pending agent's session under `identity` and closes its pane.
    pub fn close_pending_agent_stash_at(&mut self, identity: AgentSessionIdentity, now_ms: u64) -> (r: Result<(), String>)
        requires
            old(self).wf(),
        ensures
            final(self).wf(),
            Self::same_settings(*old(self), *final(self)),
            Self::same_but_stash_and_actions(*old(self), *final(self)),
            old(self).pending_agent_stash is None ==> (r matches Err(e) && e@ == "Agent stash is no longer pending"@)
                && final(self).stash == old(self).stash && final(self).actions == old(self).actions,
            r is Err ==> final(self).actions == old(self).actions,
            r is Ok ==> old(self).pending_agent_stash is Some && final(self).actions@.len() == old(self).actions@.len() + 1
                && final(self).actions@.take(old(self).actions@.len() as int) == old(self).actions@
                && (final(self).actions@.last() matches SessionAction::ClosePane { pane_id, session_id, .. }
                    && pane_id@ == old(self).pending_agent_stash.unwrap().agent.pane_id@ && session_id@ == identity.value@),
            old(self).pending_agent_stash is Some ==> (r matches Err(e) ==> Self::stash_write_failed(*old(self), e)),
    {
        let pending = match &self.pending_agent_stash {
            Some(p) => p,
            None => {
                return Err(String::from_str("Agent stash is no longer pending"));
            },
        };
        let name = match &pending.agent.runtime.session_name {
            Some(n) => n.clone(),
            None => identity.agent.clone(),
        };
        let pane_id = pending.agent.pane_id.clone();
        let record = StashedAgent {
            harness: identity.agent,
            agent_name: pending.agent.runtime.name.clone(),
            session_source: identity.source,
            session_kind: identity.kind,
            session_id: identity.value.clone(),
            session_name: clone_opt_string(&pending.agent.runtime.session_name),
            repository: pending.repository.clone(),
            repository_label: pending.repository_label.clone(),
            worktree: pending.worktree.clone(),
            branch: pending.branch.clone(),
            workspace_id: pending.agent.workspace_id.clone(),
            tab_id: pending.agent.tab_id.clone(),
            pane_id: pending.agent.pane_id.clone(),
            cwd: clone_opt_string(&pending.agent.cwd),
            destination_cwd: clone_opt_string(&pending.agent.destination_cwd),
            focused: pending.agent.focused,
            status: pending.agent.runtime.status,
            stashed_at_ms: now_ms,
        };
        match self.stash.add(record, &self.stash_writer) {
            Ok(()) => {},
            Err(e) => {
                return Err(e);
            },
        }
        self.actions.push(SessionAction::ClosePane { pane_id, session_id: identity.value, name });
        Ok(())
    }

    /// What stashing the agent at `index` needs: its working directory, the
    /// session it reported, and its title; or why it cannot be stashed.
    fn stash_target(&self, index: usize) -> (r: Result<(String, Option<AgentSessionIdentity>, Option<String>), String>)
        requires
            index < self.agents@.len(),
        ensures
            match stash_refusal(self.agents@[index as int]) {
                Some(m) => r matches Err(e) && e@ == m,
                None => r is Ok,
            },
            r matches Ok((worktree, identity, title)) ==> Some(worktree@) == agent_path(self.agents@[index as int])
                && title == self.agents@[index as int].runtime.session_name
                && match self.agents@[index as int].runtime.session_timing_key {
                    Some(AgentTimingKey::Session(i)) => identity == Some(i) && i.agent@ == "opencode"@,
                    _ => identity is None && self.agents@[index as int].runtime.name@ == "opencode"@
                        && self.agents@[index as int].runtime.session_name is Some,
                },
    {
        let agent = &self.agents[index];
        let worktree = match &agent.destination_cwd {
            Some(d) => d.clone(),
            None => match &agent.cwd {
                Some(c) => c.clone(),
                None => {
                    return Err(String::from_str("Agent has not reported its working directory"));
                },
            },
        };
        let opencode = String::from_str("opencode");
        let identity: Option<AgentSessionIdentity> = match &agent.runtime.session_timing_key {
            Some(AgentTimingKey::Session(identity)) => Some(identity.duplicate()),
            _ => {
                if agent.runtime.name == opencode {
                    if agent.runtime.session_name.is_none() {
                        return Err(String::from_str("OpenCode session could not be identified without its title"));
                    }
                    None
                } else {
                    return Err(String::from_str("Agent has not reported a resumable session"));
                }
            },
        };
        if let Some(identity) = &identity {
            if identity.agent != opencode {
                return Err(prefixed(agent.runtime.name.as_str(), " sessions cannot be restored yet"));
            }
        }
        Ok((worktree, identity, clone_opt_string(&agent.runtime.session_name)))
    }

    /// The stash could not take an agent: its file could not be read, or
    /// writing it failed with `e`.
    pub open spec fn stash_write_failed(before: Self, e: String) -> bool {
        before.stash.load_error == Some(e) || (before.stash.persisted && exists|v: &Vec<StashedAgent>|
            #[trigger] before.stash_writer.ensures((v,), Err::<(), String>(e)))
    }

    /// What `stash_agent_at` makes of the session at `now_ms`.
    pub open spec fn stash_started(before: Self, after: Self, index: usize, repository: String, repository_label: String, branch: String, r: Result<(), String>, now_ms: u64) -> bool {
        &&& Self::same_settings(before, after)
        &&& before.agent_stash_running || before.agent_display_running || before.fullscreen_running
                    ==> (r matches Err(e) && e@ == "Another agent operation is still in progress"@)
        &&& !(before.agent_stash_running || before.agent_display_running || before.fullscreen_running)
                    && index >= before.agents@.len() ==> (r matches Err(e) && e@ == "Agent is no longer available"@)
        &&& r is Ok ==> after.agent_stash_running && after.agents@ == before.agents@.remove(index as int)
                    && (after.pending_agent_stash matches Some(p) && p.agent == before.agents@[index as int] && p.index == index)
        &&& r is Err ==> after.agents@ == before.agents@ && after.agent_stash_running == before.agent_stash_running
        &&& !(before.agent_stash_running || before.agent_display_running || before.fullscreen_running)
            && index < before.agents@.len() ==> match stash_refusal(before.agents@[index as int]) {
            Some(m) => r matches Err(e) && e@ == m && after.actions == before.actions,
            None => match before.agents@[index as int].runtime.session_timing_key {
                Some(AgentTimingKey::Session(i)) => {
                    &&& (r matches Err(e) ==> Self::stash_write_failed(before, e) && after.actions == before.actions)
                    &&& (r is Ok ==> after.actions@.len() == before.actions@.len() + 1
                        && after.actions@.take(before.actions@.len() as int) == before.actions@
                        && (after.actions@.last() matches SessionAction::ClosePane { pane_id, session_id, .. }
                        && pane_id@ == before.agents@[index as int].pane_id@ && session_id@ == i.value@))
                },
                _ => {
                    &&& r is Ok
                    &&& after.actions@.len() == before.actions@.len() + 1
                    &&& after.actions@.take(before.actions@.len() as int) == before.actions@
                    &&& after.actions@.last() matches SessionAction::ResolveStashIdentity { worktree, title }
                    &&& agent_path(before.agents@[index as int]) == Some(worktree@)
                    &&& before.agents@[index as int].runtime.session_name matches Some(t) && t@ == title@
                },
            },
        }
    }

    /// Takes the agent at `index` out of the list and stashes its session,
    /// closing its pane; an OpenCode agent that did not report its session is
    /// looked up by its title first.
    #[verifier::rlimit(60)]
    #[verifier::spinoff_prover]
    pub fn stash_agent_at(&mut self, index: usize, repository: String, repository_label: String, branch: String, now_ms: u64) -> (r: Result<(), String>)
        requires
            old(self).wf(),
        ensures
            final(self).wf(),
            Self::stash_started(*old(self), *final(self), index, repository, repository_label, branch, r, now_ms),

    {
        if self.agent_stash_running || self.agent_layout_running() {
            return Err(String::from_str("Another agent operation is still in progress"));
        }
        if index >= self.agents.len() {
            return Err(String::from_str("Agent is no longer available"));
        }
        let (worktree, identity, title) = match self.stash_target(index) {
            Ok(t) => t,
            Err(e) => {
                return Err(e);
            },
        };
        let agent = self.agents[index].duplicate();
        self.pending_agent_stash = Some(PendingAgentStash { agent, index, repository, repository_label, worktree: worktree.clone(), branch });
        self.agents.remove(index);
        assert(self.agents@ == old(self).agents@.remove(index as int));
        let cards = self.agent_card_count();
        let last = if cards == 0 { 0 } else { cards - 1 };
        if self.agent_scroll > last {
            self.agent_scroll = last;
        }
        self.agent_stash_running = true;
        match identity {
            Some(identity) => {
                let ghost removed = self.agents@;
                assert(self.stash == old(self).stash && self.stash_writer == old(self).stash_writer);
                assert(self.actions == old(self).actions);
                match self.close_pending_agent_stash_at(identity, now_ms) {
                    Ok(()) => Ok(()),
                    Err(e) => {
                        assert(Self::stash_write_failed(*old(self), e));
                        self.agent_stash_running = false;
                        self.restore_pending_agent_stash();
                        assert(self.agents@ =~= old(self).agents@);
                        Err(e)
                    },
                }
            },
            None => {
                let title = match title {
                    Some(t) => t,
                    None => String::new(),
                };
                let ghost before_actions = self.actions@;
                self.actions.push(SessionAction::ResolveStashIdentity { worktree, title });
                assert(self.actions@.take(before_actions.len() as int) =~= before_actions);
                Ok(())
            },
        }
    }

    /// Stashes the agent at `index`, now.
    pub fn stash_agent(&mut self, index: usize, repository: String, repository_label: String, branch: String) -> (r: Result<(), String>)
        requires
            old(self).wf(),
        ensures
            final(self).wf(),
            Self::same_settings(*old(self), *final(self)),
            old(self).agent_stash_running || old(self).agent_display_running || old(self).fullscreen_running
                ==> (r matches Err(e) && e@ == "Another agent operation is still in progress"@),
            r is Ok ==> final(self).agent_stash_running && final(self).agents@ == old(self).agents@.remove(index as int),
            r is Err ==> final(self).agents@ == old(self).agents@,
            exists|now_ms: u64| #[trigger] Self::stash_started(*old(self), *final(self), index, repository, repository_label, branch, r, now_ms),
    {
        let now_ms = unix_time_ms();
        self.stash_agent_at(index, repository, repository_label, branch, now_ms)
    }

    /// Toggles the zoom of Hunkle's pane, unless a layout change is under way.
    pub fn toggle_fullscreen(&mut self) -> (r: Result<(), String>)
        requires
            old(self).wf(),
        ensures
            final(self).wf(),
            Self::same_settings(*old(self), *final(self)),
            final(self).agents == old(self).agents,
            old(self).agent_display_running || old(self).fullscreen_running ==> (r matches Err(e) && e@
                == "Another Herdr layout change is still in progress"@),
            !(old(self).agent_display_running || old(self).fullscreen_running) && old(self).host_pane_id is None
                ==> (r matches Err(e) && e@ == "Hunkle is not attached to a Herdr pane"@),
            r is Ok <==> !(old(self).agent_display_running || old(self).fullscreen_running) && old(self).host_pane_id is Some,
            r is Ok ==> final(self).fullscreen_running && final(self).actions@.len() == old(self).actions@.len() + 1
                && (final(self).actions@.last() matches SessionAction::ToggleZoom { pane_id } && pane_id@ == old(self).host_pane_id.unwrap()@),
            r is Err ==> final(self).actions == old(self).actions && final(self).fullscreen_running == old(self).fullscreen_running,
    {
        if self.agent_layout_running() {
            return Err(String::from_str("Another Herdr layout change is still in progress"));
        }
        let pane_id = match &self.host_pane_id {
            Some(p) => p.clone(),
            None => {
                return Err(String::from_str("Hunkle is not attached to a Herdr pane"));
            },
        };
        self.fullscreen_running = true;
        self.actions.push(SessionAction::ToggleZoom { pane_id });
        Ok(())
    }

    /// Exchanges the layout of the agent at `index` with Hunkle's tab.
    fn display_agent(&mut self, index: usize) -> (r: Result<(), String>)
        requires
            old(self).wf(),
        ensures
            final(self).wf(),
            Self::same_settings(*old(self), *final(self)),
            final(self).agents == old(self).agents,
            index >= old(self).agents@.len() ==> (r matches Err(e) && e@ == "Agent is no longer available"@),
            index < old(self).agents@.len() && (old(self).host_workspace_id is None || old(self).host_tab_id is None
                || old(self).host_pane_id is None) ==> (r matches Err(e) && e@ == "Hunkle is not attached to a Herdr pane"@),
            r is Ok <==> index < old(self).agents@.len() && old(self).host_workspace_id is Some && old(self).host_tab_id is Some
                && old(self).host_pane_id is Some,
            r is Ok ==> final(self).agent_display_running && final(self).actions@.len() == old(self).actions@.len() + 1
                && final(self).actions@.take(old(self).actions@.len() as int) == old(self).actions@
                && (final(self).actions@.last() matches SessionAction::DisplayAgent { request, selected_key, .. }
                    && request.pane_id@ == old(self).agents@[index as int].pane_id@
                    && selected_key@ == old(self).agents@[index as int].key()),
            r is Err ==> final(self).actions == old(self).actions && final(self).agent_display_running == old(self).agent_display_running,
    {
        if index >= self.agents.len() {
            return Err(String::from_str("Agent is no longer available"));
        }
        let (host_workspace_id, host_tab_id, host_pane_id) = match (&self.host_workspace_id, &self.host_tab_id, &self.host_pane_id) {
            (Some(w), Some(t), Some(p)) => (w.clone(), t.clone(), p.clone()),
            _ => {
                return Err(String::from_str("Hunkle is not attached to a Herdr pane"));
            },
        };
        let agent = &self.agents[index];
        let saved_layout = match self.agent_layouts.position(&agent.runtime.timing_key) {
            Some(p) => Some(self.agent_layouts.entries[p].1.layout.duplicate()),
            None => None,
        };
        let request = DisplayAgentRequest {
            pane_id: agent.pane_id.clone(),
            workspace_id: agent.workspace_id.clone(),
            tab_id: agent.tab_id.clone(),
            host_pane_id,
            host_workspace_id: host_workspace_id.clone(),
            host_tab_id: host_tab_id.clone(),
            allow_cross_workspace: self.cross_workspace_agents,
            saved_layout,
        };
        let selected_key = agent.runtime.timing_key.duplicate();
        let outgoing_key = match &self.displayed_agent_key {
            Some(k) => Some(k.duplicate()),
            None => {
                let mut found: Option<AgentTimingKey> = None;
                let mut i: usize = 0;
                while i < self.agents.len() && found.is_none()
                    invariant
                        i <= self.agents.len(),
                    decreases self.agents.len() - i,
                {
                    if self.agent_is_in_host_tab_by_agent(&self.agents[i]) {
                        found = Some(self.agents[i].runtime.timing_key.duplicate());
                    }
                    i = i + 1;
                }
                found
            },
        };
        let reopen_path = clone_opt_string(&agent.cwd);
        let selected_workspace_id = agent.workspace_id.clone();
        let selected_tab_id = agent.tab_id.clone();
        self.agent_display_running = true;
        self.actions.push(
            SessionAction::DisplayAgent {
                request,
                selected_key,
                outgoing_key,
                reopen_path,
                host_workspace_id,
                host_tab_id,
                selected_workspace_id,
                selected_tab_id,
            },
        );
        Ok(())
    }

    /// Shows the agent at `index` in Hunkle's tab; an agent already there stays.
    pub fn show_agent(&mut self, index: usize) -> (r: Result<(), String>)
        requires
            old(self).wf(),
        ensures
            final(self).wf(),
            Self::same_settings(*old(self), *final(self)),
            final(self).agents == old(self).agents,
            old(self).agent_display_running || old(self).fullscreen_running ==> (r matches Err(e) && e@
                == "Another agent layout change is still in progress"@) && final(self).actions == old(self).actions,
            !(old(self).agent_display_running || old(self).fullscreen_running) && index < old(self).agents@.len()
                && in_tab(old(self).agents@[index as int], old(self).host_workspace_id, old(self).host_tab_id)
                ==> r is Ok && final(self).actions == old(self).actions && !final(self).agent_display_running,
            !(old(self).agent_display_running || old(self).fullscreen_running) && index >= old(self).agents@.len()
                ==> (r matches Err(e) && e@ == "Agent is no longer available"@),
            !(old(self).agent_display_running || old(self).fullscreen_running) && index < old(self).agents@.len()
                && !in_tab(old(self).agents@[index as int], old(self).host_workspace_id, old(self).host_tab_id) ==> {
                &&& (r is Ok <==> old(self).host_workspace_id is Some && old(self).host_tab_id is Some
                    && old(self).host_pane_id is Some)
                &&& (r is Err ==> (r matches Err(e) && e@ == "Hunkle is not attached to a Herdr pane"@)
                    && final(self).actions == old(self).actions && final(self).agent_display_running
                    == old(self).agent_display_running)
                &&& (r is Ok ==> final(self).agent_display_running && final(self).actions@.len()
                    == old(self).actions@.len() + 1 && final(self).actions@.take(old(self).actions@.len() as int)
                    == old(self).actions@ && (final(self).actions@.last() matches SessionAction::DisplayAgent {
                    request,
                    selected_key,
                    ..
                } && request.pane_id@ == old(self).agents@[index as int].pane_id@ && selected_key@ == old(
                    self,
                ).agents@[index as int].key()))
            },
    {
        if self.agent_layout_running() {
            return Err(String::from_str("Another agent layout change is still in progress"));
        }
        if self.agent_is_in_host_tab(index) {
            return Ok(());
        }
        self.display_agent(index)
    }

    /// What `clear_agent_timing_history_at` makes of the session at `now_ms`.
    pub open spec fn timing_history_cleared(before: Self, after: Self, r: Result<(), String>, now_ms: u64) -> bool {
        &&& Self::same_settings(before, after)
        &&& r is Ok
        &&& after.agents == before.agents
        &&& after.agent_timing_clear_generation == wrapping_next(before.agent_timing_clear_generation)
        &&& before.agent_timing_persisted ==> after.actions@.len() == before.actions@.len() + 1
                    && (after.actions@.last() matches SessionAction::PersistTimings(request)
                        && request.clear_generation == after.agent_timing_clear_generation
                        && request.submitted@ == after.agent_timings@
                        && request.operation is Reset)
        &&& !before.agent_timing_persisted ==> after.actions == before.actions
    }

    /// Forgets all timing history and starts the current agents afresh.
    pub fn clear_agent_timing_history_at(&mut self, now_ms: u64) -> (r: Result<(), String>)
        requires
            old(self).wf(),
        ensures
            final(self).wf(),
            Self::timing_history_cleared(*old(self), *final(self), r, now_ms),

    {
        self.agent_timing_clear_generation = if self.agent_timing_clear_generation == u64::MAX {
            0
        } else {
            self.agent_timing_clear_generation + 1
        };
        reset_local(&mut self.agent_timings, &self.agents, now_ms);
        if self.agent_timing_persisted {
            let submitted = duplicate_timings(&self.agent_timings);
            self.actions.push(
                SessionAction::PersistTimings(
                    Request {
                        submitted,
                        clear_generation: self.agent_timing_clear_generation,
                        operation: Operation::Reset { agents: duplicate_agents(&self.agents), now_ms },
                    },
                ),
            );
        }
        Ok(())
    }

    /// Forgets all timing history, now.
    pub fn clear_agent_timing_history(&mut self) -> (r: Result<(), String>)
        requires
            old(self).wf(),
        ensures
            final(self).wf(),
            Self::same_settings(*old(self), *final(self)),
            r is Ok,
            exists|now_ms: u64| #[trigger] Self::timing_history_cleared(*old(self), *final(self), r, now_ms),
    {
        let now_ms = unix_time_ms();
        self.clear_agent_timing_history_at(now_ms)
    }

    /// The destinations of the listed agents that report one.
    pub fn agent_stats_destinations(&self) -> (r: Vec<String>)
        ensures
            crate::layout::views(r@) == destinations(self.agents@),
    {
        let mut out: Vec<String> = Vec::new();
        let mut i: usize = 0;
        while i < self.agents.len()
            invariant
                i <= self.agents.len(),
                crate::layout::views(out@) == destinations(self.agents@.take(i as int)),
            decreases self.agents.len() - i,
        {
            assert(self.agents@.take(i + 1).drop_last() =~= self.agents@.take(i as int));
            if let Some(d) = &self.agents[i].destination_cwd {
                out.push(d.clone());
            }
            assert(crate::layout::views(out@) =~= destinations(self.agents@.take(i + 1)));
            i = i + 1;
        }
        assert(self.agents@.take(self.agents.len() as int) =~= self.agents@);
        out
    }

    /// The repository of the agent at `index`: the name of its destination,
    /// else the name of its workspace's repository root, else the workspace's label.
    pub fn agent_repository_name(&self, index: usize) -> (r: Option<String>)
        ensures
            index >= self.agents@.len() ==> r is None,
            index < self.agents@.len() ==> ({
                let a = self.agents@[index as int];
                let from_destination = match a.destination_cwd {
                    Some(d) => path_file_name(d@),
                    None => None,
                };
                let w = first_workspace(self.workspaces@, a.workspace_id@);
                match from_destination {
                    Some(n) => opt_view(r) == Some(n),
                    None => if w < self.workspaces@.len() {
                        let ws = self.workspaces@[w];
                        let from_root = match ws.repo_root {
                            Some(root) => path_file_name(root@),
                            None => None,
                        };
                        match from_root {
                            Some(n) => opt_view(r) == Some(n),
                            None => opt_view(r) == Some(ws.label@),
                        }
                    } else {
                        r is None
                    },
                }
            }),
    {
        if index >= self.agents.len() {
            return None;
        }
        let agent = &self.agents[index];
        if let Some(d) = &agent.destination_cwd {
            if let Some(name) = file_name_of(d.as_str()) {
                return Some(name);
            }
        }
        let mut w: usize = 0;
        while w < self.workspaces.len() && self.workspaces[w].id != agent.workspace_id
            invariant
                w <= self.workspaces.len(),
                index < self.agents.len(),
                agent == self.agents@[index as int],
                forall|k: int| 0 <= k < w ==> (#[trigger] self.workspaces@[k]).id@ != self.agents@[index as int].workspace_id@,
            decreases self.workspaces.len() - w,
        {
            w = w + 1;
        }
        proof {
            lemma_first_workspace(self.workspaces@, agent.workspace_id@, w as int);
        }
        if w >= self.workspaces.len() {
            return None;
        }
        let workspace = &self.workspaces[w];
        if let Some(root) = &workspace.repo_root {
            if let Some(name) = file_name_of(root.as_str()) {
                return Some(name);
            }
        }
        Some(workspace.label.clone())
    }

    /// Shows the agents of every workspace or only those of Hunkle's, and asks
    /// for a fresh snapshot.
    pub fn set_cross_workspace_agents(&mut self, enabled: bool)
        requires
            old(self).wf(),
        ensures
            final(self).wf(),
            final(self).cross_workspace_agents == enabled,
            final(self).next_refresh_ms == 0,
            enabled ==> final(self).agents == old(self).agents,
            !enabled ==> final(self).agents@ == old(self).agents@.filter(|a: AgentPane| opt_view(old(self).host_workspace_id) == Some(a.workspace_id@)),
    {
        self.cross_workspace_agents = enabled;
        if !enabled {
            let mut kept: Vec<AgentPane> = Vec::new();
            let mut i: usize = 0;
            while i < self.agents.len()
                invariant
                    i <= self.agents.len(),
                    kept@ == self.agents@.take(i as int).filter(|a: AgentPane| opt_view(self.host_workspace_id) == Some(a.workspace_id@)),
                decreases self.agents.len() - i,
            {
                assert(self.agents@.take(i + 1).drop_last() =~= self.agents@.take(i as int));
                if opt_is(&self.host_workspace_id, &self.agents[i].workspace_id) {
                    kept.push(self.agents[i].duplicate());
                }
                proof {
                    reveal(Seq::filter);
                }
                i = i + 1;
            }
            assert(self.agents@.take(self.agents.len() as int) =~= self.agents@);
            self.agents = kept;
        }
        self.next_refresh_ms = 0;
    }

    /// What `start_snapshot_at` makes of the session.
    pub open spec fn snapshot_started(before: Self, after: Self, now_ms: u64) -> bool {
        &&& Self::same_settings(before, after)
        &&& after.loading
        &&& after.next_refresh_ms == sat_add(now_ms, REFRESH_INTERVAL_MS)
        &&& after.actions@ == before.actions@.push(SessionAction::StartSnapshot)
        &&& after.agents == before.agents
        &&& after == (HerdrSession::<W> {
            loading: after.loading,
            next_refresh_ms: after.next_refresh_ms,
            actions: after.actions,
            ..before
        })
    }

    /// Starts a snapshot and schedules the next one `REFRESH_INTERVAL_MS` later.
    pub fn start_snapshot_at(&mut self, now_ms: u64)
        requires
            old(self).wf(),
        ensures
            final(self).wf(),
            Self::snapshot_started(*old(self), *final(self), now_ms),

    {
        self.loading = true;
        self.next_refresh_ms = now_ms.saturating_add(REFRESH_INTERVAL_MS);
        self.actions.push(SessionAction::StartSnapshot);
    }

    /// Asks the services behind the session to stop.
    pub fn shutdown(&mut self)
        requires
            old(self).wf(),
        ensures
            final(self).wf(),
            Self::same_settings(*old(self), *final(self)),
            final(self).actions@ == old(self).actions@.push(SessionAction::Shutdown),
            final(self).agents == old(self).agents,
    {
        self.actions.push(SessionAction::Shutdown);
    }

    /// Hands out the work requested since the last call, in order.
    pub fn take_actions(&mut self) -> (r: Vec<SessionAction>)
        requires
            old(self).wf(),
        ensures
            final(self).wf(),
            Self::same_settings(*old(self), *final(self)),
            r@ == old(self).actions@,
            final(self).actions@.len() == 0,
            final(self).agents == old(self).agents,
    {
        let mut taken: Vec<SessionAction> = Vec::new();
        std::mem::swap(&mut taken, &mut self.actions);
        taken
    }
}

/// The destinations the agents report, in order.
pub open spec fn destinations(agents: Seq<AgentPane>) -> Seq<Seq<char>>
    decreases agents.len(),
{
    if agents.len() == 0 {
        seq![]
    } else {
        match agents.last().destination_cwd {
            Some(d) => destinations(agents.drop_last()).push(d@),
            None => destinations(agents.drop_last()),
        }
    }
}

/// The index of the first workspace with the id `id`, or the length of the list.
pub open spec fn first_workspace(workspaces: Seq<HerdrWorkspace>, id: Seq<char>) -> int
    decreases workspaces.len(),
{
    if workspaces.len() == 0 {
        0
    } else if workspaces[0].id@ == id {
        0
    } else {
        1 + first_workspace(workspaces.drop_first(), id)
    }
}

proof fn lemma_first_workspace(workspaces: Seq<HerdrWorkspace>, id: Seq<char>, i: int)
    requires
        0 <= i <= workspaces.len(),
        forall|k: int| 0 <= k < i ==> (#[trigger] workspaces[k]).id@ != id,
        i == workspaces.len() || workspaces[i].id@ == id,
    ensures
        first_workspace(workspaces, id) == i,
    decreases i,
{
    if i > 0 {
        assert forall|k: int| 0 <= k < i - 1 implies (#[trigger] workspaces.drop_first()[k]).id@ != id by {
            assert(workspaces.drop_first()[k] == workspaces[k + 1]);
        }
        lemma_first_workspace(workspaces.drop_first(), id, i - 1);
    }
}

/// Where an agent lives after a layout exchange moved its pane.
pub open spec fn relocated(a: AgentPane, locations: Map<Seq<char>, crate::layout::LivePaneLocation>, host_workspace_id: String, host_tab_id: String, selected_workspace_id: String, selected_tab_id: String) -> AgentPane {
    if locations.dom().contains(a.pane_id@) {
        let l = locations[a.pane_id@];
        AgentPane {
            pane_id: l.pane_id,
            tab_id: l.tab_id,
            workspace_id: if l.tab_id@ == host_tab_id@ {
                host_workspace_id
            } else if l.tab_id@ == selected_tab_id@ {
                selected_workspace_id
            } else {
                a.workspace_id
            },
            ..a
        }
    } else {
        a
    }
}

/// Renames the panes of every saved layout to where they live now.
fn remap_saved_layouts(table: &mut KeyedTable<SavedAgentLayout>, locations: &PaneLocations)
    requires
        old(table).wf(),
        locations.wf(),
    ensures
        final(table).wf(),
        final(table)@.dom() == old(table)@.dom(),
        forall|k: TimingKeyView| #[trigger] final(table)@.dom().contains(k) ==> final(table)@[k].last_used_ms == old(table)@[k].last_used_ms
            && final(table)@[k].layout.root == old(table)@[k].layout.root.spec_remap_known(locations@),
{
    let mut entries: Vec<(AgentTimingKey, SavedAgentLayout)> = Vec::new();
    std::mem::swap(&mut entries, &mut table.entries);
    let ghost all = entries@;
    let mut out: Vec<(AgentTimingKey, SavedAgentLayout)> = Vec::new();
    let mut i: usize = 0;
    let n = entries.len();
    while entries.len() > 0
        invariant
            all == old(table).entries@,
            crate::table::distinct_keys(all),
            i + entries.len() == all.len(),
            n == all.len(),
            entries@ == all.skip(i as int),
            out@.len() == i,
            forall|k: int| 0 <= k < i ==> (#[trigger] out@[k]).0 == all[k].0 && out@[k].1.last_used_ms == all[k].1.last_used_ms
                && out@[k].1.layout.root == all[k].1.layout.root.spec_remap_known(locations@),
            locations.wf(),
        decreases entries.len(),
    {
        let (key, mut saved) = entries.remove(0);
        assert(entries@ =~= all.skip(i + 1));
        saved.layout.remap_known(locations);
        out.push((key, saved));
        i = i + 1;
    }
    proof {
        assert forall|a: int, b: int| 0 <= a < b < out@.len() implies out@[a].0@ != out@[b].0@ by {
            assert(out@[a].0 == all[a].0 && out@[b].0 == all[b].0);
        }
        assert forall|k: TimingKeyView| #[trigger] crate::table::map_of(out@).dom().contains(k) <==> crate::table::map_of(all).dom().contains(k) by {
            crate::table::lemma_map_of_dom(out@, k);
            crate::table::lemma_map_of_dom(all, k);
            if crate::table::map_of(out@).dom().contains(k) {
                let j = choose|j: int| 0 <= j < out@.len() && out@[j].0@ == k;
                assert(all[j].0@ == k);
            }
            if crate::table::map_of(all).dom().contains(k) {
                let j = choose|j: int| 0 <= j < all.len() && all[j].0@ == k;
                assert(out@[j].0@ == k);
            }
        }
        assert forall|k: TimingKeyView| #[trigger] crate::table::map_of(out@).dom().contains(k) implies crate::table::map_of(out@)[k].last_used_ms
            == crate::table::map_of(all)[k].last_used_ms && crate::table::map_of(out@)[k].layout.root == crate::table::map_of(all)[k].layout.root.spec_remap_known(locations@) by {
            crate::table::lemma_map_of_dom(out@, k);
            let j = choose|j: int| 0 <= j < out@.len() && out@[j].0@ == k;
            crate::table::lemma_map_of_index(out@, j);
            crate::table::lemma_map_of_index(all, j);
        }
    }
    table.entries = out;
    assert(table@.dom() =~= old(table)@.dom());
}

impl<W: Fn(&Vec<StashedAgent>) -> Result<(), String>> HerdrSession<W> {
    /// Moves the agents whose panes a layout exchange moved.
    fn relocate_agents(&mut self, locations: &PaneLocations, host_workspace_id: &String, host_tab_id: &String, selected_workspace_id: &String, selected_tab_id: &String)
        requires
            old(self).wf(),
            locations.wf(),
        ensures
            final(self).wf(),
            Self::same_settings(*old(self), *final(self)),
            Self::same_but_agents_and_pending(*old(self), *final(self)),
            final(self).pending_agent_stash == old(self).pending_agent_stash,
            final(self).agents@.len() == old(self).agents@.len(),
            forall|i: int| 0 <= i < old(self).agents@.len() ==> #[trigger] final(self).agents@[i] == relocated(
                old(self).agents@[i], locations@, *host_workspace_id, *host_tab_id, *selected_workspace_id, *selected_tab_id),
    {
        let mut i: usize = 0;
        while i < self.agents.len()
            invariant
                i <= self.agents.len(),
                self.wf(),
                locations.wf(),
                Self::same_but_agents_and_pending(*old(self), *self),
                self.pending_agent_stash == old(self).pending_agent_stash,
                self.agents@.len() == old(self).agents@.len(),
                forall|k: int| 0 <= k < i ==> #[trigger] self.agents@[k] == relocated(
                    old(self).agents@[k], locations@, *host_workspace_id, *host_tab_id, *selected_workspace_id, *selected_tab_id),
                forall|k: int| i <= k < self.agents@.len() ==> #[trigger] self.agents@[k] == old(self).agents@[k],
            decreases self.agents.len() - i,
        {
            let location = match locations.get(self.agents[i].pane_id.as_str()) {
                Some(l) => Some(l.duplicate()),
                None => None,
            };
            if let Some(location) = location {
                let mut a = self.agents[i].duplicate();
                if location.tab_id == *host_tab_id {
                    a.workspace_id = host_workspace_id.clone();
                } else if location.tab_id == *selected_tab_id {
                    a.workspace_id = selected_workspace_id.clone();
                }
                a.pane_id = location.pane_id;
                a.tab_id = location.tab_id;
                self.agents.set(i, a);
            }
            i = i + 1;
        }
    }

    /// What `complete_agent_display` makes of the session.
    pub open spec fn agent_display_completed(before: Self, after: Self, result: Result<DisplayAgentResult, String>, selected_key: AgentTimingKey, outgoing_key: Option<AgentTimingKey>, reopen_path: Option<String>, host_workspace_id: String, host_tab_id: String, selected_workspace_id: String, selected_tab_id: String, now_ms: u64, r: CompletionEffect) -> bool {
        &&& Self::same_settings(before, after)
        &&& !after.agent_display_running
        &&& after.next_refresh_ms == 0
        &&& r.changed
        &&& r.fullscreen_result is None
        &&& match result {
                    Err(e) => r.notice == Some(e) && r.reopen_path is None && after.agents == before.agents
                        && after.agent_layouts == before.agent_layouts,
                    Ok(d) => {
                        &&& r.notice is None && r.reopen_path == Some(reopen_path)
                        &&& after.agents@.len() == before.agents@.len()
                        &&& forall|i: int| 0 <= i < before.agents@.len() ==> #[trigger] after.agents@[i] == relocated(
                            before.agents@[i], d.pane_locations@, host_workspace_id, host_tab_id, selected_workspace_id, selected_tab_id)
                        &&& after.displayed_agent_key == Some(selected_key)
                        &&& (after.agent_layouts@.dom().contains(selected_key@) ==> after.agent_layouts@[selected_key@].layout == d.displayed
                            && after.agent_layouts@[selected_key@].last_used_ms == now_ms)
                        &&& after.agent_layouts@.dom().contains(selected_key@)
                        &&& (before.agent_layouts_persisted ==> after.actions@.last() is SaveLayouts)
                    },
                }
    }

    /// Takes in the result of a layout exchange: renames the moved panes in
    /// the saved layouts and the agents, saves the displayed and parked layouts
    /// as used now, and records the displayed agent.
    pub fn complete_agent_display(
        &mut self,
        result: Result<DisplayAgentResult, String>,
        selected_key: AgentTimingKey,
        outgoing_key: Option<AgentTimingKey>,
        reopen_path: Option<String>,
        host_workspace_id: String,
        host_tab_id: String,
        selected_workspace_id: String,
        selected_tab_id: String,
        now_ms: u64,
    ) -> (r: CompletionEffect)
        requires
            old(self).wf(),
            result matches Ok(d) ==> d.pane_locations.wf(),
        ensures
            final(self).wf(),
            Self::agent_display_completed(*old(self), *final(self), result, selected_key, outgoing_key, reopen_path, host_workspace_id, host_tab_id, selected_workspace_id, selected_tab_id, now_ms, r),

    {
        self.agent_display_running = false;
        self.next_refresh_ms = 0;
        match result {
            Err(e) => CompletionEffect { changed: true, notice: Some(e), reopen_path: None, fullscreen_result: None },
            Ok(d) => {
                let DisplayAgentResult { displayed, parked, pane_locations } = d;
                remap_saved_layouts(&mut self.agent_layouts, &pane_locations);
                self.relocate_agents(&pane_locations, &host_workspace_id, &host_tab_id, &selected_workspace_id, &selected_tab_id);
                if let (Some(key), Some(layout)) = (outgoing_key, parked) {
                    self.agent_layouts.insert(key, SavedAgentLayout { layout, last_used_ms: now_ms });
                }
                let ghost displayed_layout = displayed;
                self.agent_layouts.insert(selected_key.duplicate(), SavedAgentLayout { layout: displayed, last_used_ms: now_ms });
                self.displayed_agent_key = Some(selected_key);
                let ghost before_prune = self.agent_layouts@;
                self.prune_agent_layout_history();
                proof {
                    assert(layout_keys_spared(self.agents@, self.displayed_agent_key, self.displayed_agent_key.unwrap()@));
                }
                if self.agent_layouts_persisted {
                    self.actions.push(SessionAction::SaveLayouts);
                }
                CompletionEffect { changed: true, notice: None, reopen_path: Some(reopen_path), fullscreen_result: None }
            },
        }
    }

    /// What `complete_agent_stash` makes of the session.
    pub open spec fn agent_stash_completed(before: Self, after: Self, session_id: String, name: String, result: Result<(), String>, r: CompletionEffect) -> bool {
        &&& Self::same_settings(before, after)
        &&& !after.agent_stash_running
        &&& after.next_refresh_ms == 0
        &&& r.changed && r.reopen_path is None && r.fullscreen_result is None
        &&& after.pending_agent_stash is None
        &&& match result {
                    Ok(()) => (r.notice matches Some(n) && n@ == stash_notice(name@))
                        && after.agents == before.agents
                        && after.stashed_pane_ids@ == match before.pending_agent_stash {
                            Some(p) => before.stashed_pane_ids@.push(p.agent.pane_id),
                            None => before.stashed_pane_ids@,
                        },
                    Err(e) => (r.notice matches Some(n) && (n@ == "Could not stash agent: "@ + e@
                        || exists|m: Seq<char>| n@ == "Could not stash agent: "@ + e@ + "; "@ + m))
                        && match before.pending_agent_stash {
                            None => after.agents == before.agents,
                            Some(p) => {
                                let at = if p.index <= before.agents@.len() { p.index as int } else { before.agents@.len() as int };
                                after.agents@ == before.agents@.insert(at, p.agent)
                            },
                        },
                }
    }

    /// Takes in the end of a stash: the pane is remembered as stashed, or the
    /// stash entry is taken back and the agent returns to the list.
    pub fn complete_agent_stash(&mut self, session_id: String, name: String, result: Result<(), String>) -> (r: CompletionEffect)
        requires
            old(self).wf(),
        ensures
            final(self).wf(),
            Self::agent_stash_completed(*old(self), *final(self), session_id, name, result, r),

    {
        self.agent_stash_running = false;
        self.next_refresh_ms = 0;
        match result {
            Ok(()) => {
                let mut pending: Option<PendingAgentStash> = None;
                std::mem::swap(&mut pending, &mut self.pending_agent_stash);
                if let Some(p) = pending {
                    self.stashed_pane_ids.push(p.agent.pane_id);
                }
                let notice = prefixed("Stashed agent ", name.as_str());
                CompletionEffect { changed: true, notice: Some(notice), reopen_path: None, fullscreen_result: None }
            },
            Err(e) => {
                let rollback = self.stash.remove(session_id.as_str(), &self.stash_writer);
                self.restore_pending_agent_stash();
                let mut notice = prefixed("Could not stash agent: ", e.as_str());
                if let Err(r) = rollback {
                    append_str(&mut notice, "; ");
                    append_str(&mut notice, r.as_str());
                }
                CompletionEffect { changed: true, notice: Some(notice), reopen_path: None, fullscreen_result: None }
            },
        }
    }

    /// What `complete_agent_stash_identity` makes of the session.
    pub open spec fn stash_identity_completed(before: Self, after: Self, result: Result<AgentSessionIdentity, String>, now_ms: u64, r: CompletionEffect) -> bool {
        &&& Self::same_settings(before, after)
        &&& r.changed && r.reopen_path is None && r.fullscreen_result is None
        &&& r.notice is Some
        &&& result is Err ==> !after.agent_stash_running && after.pending_agent_stash is None
    }

    /// Takes in the session an agent without a reported session was found to run.
    pub fn complete_agent_stash_identity(&mut self, result: Result<AgentSessionIdentity, String>, now_ms: u64) -> (r: CompletionEffect)
        requires
            old(self).wf(),
        ensures
            final(self).wf(),
            Self::stash_identity_completed(*old(self), *final(self), result, now_ms, r),

    {
        let outcome = match result {
            Ok(identity) => self.close_pending_agent_stash_at(identity, now_ms),
            Err(e) => Err(e),
        };
        match outcome {
            Ok(()) => CompletionEffect {
                changed: true,
                notice: Some(String::from_str("Closing and stashing agent")),
                reopen_path: None,
                fullscreen_result: None,
            },
            Err(e) => {
                self.agent_stash_running = false;
                self.restore_pending_agent_stash();
                CompletionEffect {
                    changed: true,
                    notice: Some(prefixed("Could not stash agent: ", e.as_str())),
                    reopen_path: None,
                    fullscreen_result: None,
                }
            },
        }
    }

    /// What `complete_fullscreen` makes of the session.
    pub open spec fn fullscreen_completed(before: Self, after: Self, result: Result<bool, String>, r: CompletionEffect) -> bool {
        &&& Self::same_settings(before, after)
        &&& !after.fullscreen_running
        &&& r.changed && r.reopen_path is None
        &&& r.fullscreen_result == Some(result)
        &&& match result {
                    Ok(b) => after.fullscreen == b && (r.notice matches Some(n) && n@ == (if b {
                        "Hunkle is fullscreen"@
                    } else {
                        "Restored Herdr tab layout"@
                    })),
                    Err(e) => after.fullscreen == before.fullscreen && (r.notice matches Some(n) && n@
                        == "Could not toggle fullscreen: "@ + e@),
                }
        &&& after.agents == before.agents
    }

    /// Takes in the end of a zoom toggle.
    pub fn complete_fullscreen(&mut self, result: Result<bool, String>) -> (r: CompletionEffect)
        requires
            old(self).wf(),
        ensures
            final(self).wf(),
            Self::fullscreen_completed(*old(self), *final(self), result, r),

    {
        self.fullscreen_running = false;
        let notice = match &result {
            Ok(b) => {
                self.fullscreen = *b;
                if *b {
                    String::from_str("Hunkle is fullscreen")
                } else {
                    String::from_str("Restored Herdr tab layout")
                }
            },
            Err(e) => prefixed("Could not toggle fullscreen: ", e.as_str()),
        };
        CompletionEffect { changed: true, notice: Some(notice), reopen_path: None, fullscreen_result: Some(result) }
    }

    /// The stored transcripts and their revision are as they were.
    pub open spec fn transcripts_kept(before: Self, after: Self) -> bool {
        after.latest_user_messages == before.latest_user_messages && after.transcript_revision
            == before.transcript_revision
    }

    /// `messages`, fetched for the conversation `id`, is stored under a new
    /// revision unless the same messages are stored already; other
    /// conversations keep their transcripts.
    pub open spec fn transcript_stored(before: Self, after: Self, id: Seq<char>, messages: Vec<AgentUserMessage>) -> bool {
        if !(before.latest_user_messages@.dom().contains(id) && messages_view(
            before.latest_user_messages@[id].messages@,
        ) == messages_view(messages@)) {
            &&& after.transcript_revision == wrapping_next(before.transcript_revision)
            &&& after.latest_user_messages@.dom() == before.latest_user_messages@.dom().insert(id)
            &&& after.latest_user_messages@[id].revision == after.transcript_revision
            &&& after.latest_user_messages@[id].messages == messages
            &&& forall|k: Seq<char>|
                k != id && #[trigger] before.latest_user_messages@.dom().contains(k)
                    ==> after.latest_user_messages@[k] == before.latest_user_messages@[k]
        } else {
            Self::transcripts_kept(before, after)
        }
    }

    /// What `complete_latest_user_message` makes of the session.
    pub open spec fn latest_message_completed(before: Self, after: Self, identity: OpenCodeConversationIdentity, result: Result<TranscriptFetch, String>, r: CompletionEffect) -> bool {
        &&& Self::same_settings(before, after)
        &&& r.notice is None && r.reopen_path is None && r.fullscreen_result is None
        &&& after.latest_user_message_requests@ == before.latest_user_message_requests@.remove(identity.session_id@)
        &&& after.latest_user_message_refreshes == before.latest_user_message_refreshes
        &&& after.latest_user_message_statuses == before.latest_user_message_statuses
        &&& !before.latest_user_message_refreshes@.dom().contains(identity.session_id@) ==> !r.changed
                    && Self::transcripts_kept(before, after)
                    && after.latest_user_message_errors == before.latest_user_message_errors
        &&& before.latest_user_message_refreshes@.dom().contains(identity.session_id@) ==> match result {
                    Err(e) => r.changed && after.latest_user_message_errors@ == before.latest_user_message_errors@.insert(identity.session_id@, e)
                        && Self::transcripts_kept(before, after),
                    Ok(TranscriptFetch::Unchanged) => r.changed == before.latest_user_message_errors@.dom().contains(identity.session_id@)
                        && after.latest_user_message_errors@ == before.latest_user_message_errors@.remove(identity.session_id@)
                        && Self::transcripts_kept(before, after),
                    Ok(TranscriptFetch::Changed(messages)) => Self::transcript_stored(before, after, identity.session_id@, messages)
                        && after.latest_user_message_errors@ == before.latest_user_message_errors@.remove(identity.session_id@)
                        && r.changed == (before.latest_user_message_errors@.dom().contains(identity.session_id@)
                            || !(before.latest_user_messages@.dom().contains(identity.session_id@)
                            && messages_view(before.latest_user_messages@[identity.session_id@].messages@) == messages_view(messages@))),
                }
        &&& after.agents == before.agents
    }

    /// Takes in a fetched agent transcript. A fetch for a conversation whose
    /// refresh marker is gone (its agent departed) changes nothing but the request.
    pub fn complete_latest_user_message(&mut self, identity: OpenCodeConversationIdentity, result: Result<TranscriptFetch, String>) -> (r: CompletionEffect)
        requires
            old(self).wf(),
        ensures
            final(self).wf(),
            Self::latest_message_completed(*old(self), *final(self), identity, result, r),

    {
        self.latest_user_message_requests.remove(identity.session_id.as_str());
        if !self.latest_user_message_refreshes.contains_key(identity.session_id.as_str()) {
            return CompletionEffect { changed: false, notice: None, reopen_path: None, fullscreen_result: None };
        }
        let changed = match result {
            Ok(TranscriptFetch::Changed(messages)) => {
                let had_error = self.latest_user_message_errors.remove(identity.session_id.as_str()).is_some();
                let stored = self.update_transcript(identity, messages);
                had_error || stored
            },
            Ok(TranscriptFetch::Unchanged) => self.latest_user_message_errors.remove(identity.session_id.as_str()).is_some(),
            Err(e) => {
                self.latest_user_message_errors.insert(identity.session_id, e);
                true
            },
        };
        CompletionEffect { changed, notice: None, reopen_path: None, fullscreen_result: None }
    }

    /// What `complete_agent_prompt` makes of the session.
    pub open spec fn agent_prompt_completed(before: Self, after: Self, key: AgentTimingKey, result: Result<(), String>, r: CompletionEffect) -> bool {
        &&& Self::same_settings(before, after)
        &&& r.changed && r.reopen_path is None && r.fullscreen_result is None
        &&& after.next_refresh_ms == 0
        &&& after.agent_prompt_requests@ == before.agent_prompt_requests@.remove(key@)
        &&& match result {
                    Ok(()) => (r.notice matches Some(n) && n@ == "Message sent to agent"@)
                        && after.agent_prompt_errors@ == before.agent_prompt_errors@.remove(key@),
                    Err(e) => (r.notice matches Some(n) && n@ == "Could not message agent: "@ + e@)
                        && after.agent_prompt_errors@ == before.agent_prompt_errors@.insert(key@, e),
                }
        &&& after.agents == before.agents
    }

    /// Takes in the end of a message to an agent; a delivered message makes the
    /// agent's transcript due for a fetch.
    pub fn complete_agent_prompt(&mut self, key: AgentTimingKey, result: Result<(), String>) -> (r: CompletionEffect)
        requires
            old(self).wf(),
        ensures
            final(self).wf(),
            Self::agent_prompt_completed(*old(self), *final(self), key, result, r),

    {
        self.agent_prompt_requests.remove(&key);
        self.next_refresh_ms = 0;
        match result {
            Ok(()) => {
                self.agent_prompt_errors.remove(&key);
                let mut i: usize = 0;
                let mut conversation: Option<String> = None;
                while i < self.agents.len() && conversation.is_none()
                    invariant
                        i <= self.agents.len(),
                    decreases self.agents.len() - i,
                {
                    if self.agents[i].runtime.timing_key.same_as(&key) {
                        conversation = conversation_id(&self.agents[i]);
                        if conversation.is_none() {
                            i = self.agents.len();
                        }
                    }
                    if i < self.agents.len() {
                        i = i + 1;
                    }
                }
                if let Some(id) = conversation {
                    self.latest_user_message_refreshes.remove(id.as_str());
                    self.latest_user_message_statuses.remove(id.as_str());
                }
                CompletionEffect { changed: true, notice: Some(String::from_str("Message sent to agent")), reopen_path: None, fullscreen_result: None }
            },
            Err(e) => {
                let notice = prefixed("Could not message agent: ", e.as_str());
                self.agent_prompt_errors.insert(key, e);
                CompletionEffect { changed: true, notice: Some(notice), reopen_path: None, fullscreen_result: None }
            },
        }
    }

    /// What `complete_scheduled_prompt` makes of the session.
    pub open spec fn scheduled_prompt_completed(before: Self, after: Self, run_id: i64, session_id: Option<String>, result: Result<(), String>, r: CompletionEffect) -> bool {
        &&& Self::same_settings(before, after)
        &&& r.changed && r.reopen_path is None && r.fullscreen_result is None
        &&& after.scheduled_prompt_requests@ == before.scheduled_prompt_requests@.remove(run_id)
        &&& match result {
                    Ok(()) => (r.notice matches Some(n) && n@ == "Message sent to scheduled agent"@)
                        && after.scheduled_prompt_errors@ == before.scheduled_prompt_errors@.remove(run_id)
                        && (session_id matches Some(s) ==> (after.scheduled_preview_identity matches Some(p) && p.session_id@ == s@)),
                    Err(e) => (r.notice matches Some(n) && n@ == "Could not message scheduled agent: "@ + e@)
                        && after.scheduled_prompt_errors@ == before.scheduled_prompt_errors@.insert(run_id, e),
                }
        &&& after.agents == before.agents
    }

    /// Takes in the end of a message to a scheduled run's agent.
    pub fn complete_scheduled_prompt(&mut self, run_id: i64, session_id: Option<String>, result: Result<(), String>) -> (r: CompletionEffect)
        requires
            old(self).wf(),
        ensures
            final(self).wf(),
            Self::scheduled_prompt_completed(*old(self), *final(self), run_id, session_id, result, r),

    {
        self.scheduled_prompt_requests.remove(run_id);
        match result {
            Ok(()) => {
                self.scheduled_prompt_errors.remove(run_id);
                if let Some(s) = session_id {
                    self.refresh_scheduled_conversation(s.as_str());
                }
                CompletionEffect { changed: true, notice: Some(String::from_str("Message sent to scheduled agent")), reopen_path: None, fullscreen_result: None }
            },
            Err(e) => {
                let notice = prefixed("Could not message scheduled agent: ", e.as_str());
                self.scheduled_prompt_errors.insert(run_id, e);
                CompletionEffect { changed: true, notice: Some(notice), reopen_path: None, fullscreen_result: None }
            },
        }
    }

    /// Records the OpenCode session of the first run `run_id` that has none.
    #[verifier::rlimit(30)]
    pub fn bind_session(&mut self, run_id: i64, session_id: String)
        requires
            old(self).wf(),
        ensures
            final(self).wf(),
            Self::same_settings(*old(self), *final(self)),
            Self::same_but_scheduler_and_actions(*old(self), *final(self)),
            match (old(self).scheduler, final(self).scheduler) {
                (Some(before), Some(after)) => after.tasks == before.tasks && after.runs@.len() == before.runs@.len()
                    && forall|i: int| 0 <= i < before.runs@.len() ==> #[trigger] after.runs@[i] == if i == first_unbound_run(before.runs@, run_id) {
                        ScheduledRun { session_id: Some(session_id), ..before.runs@[i] }
                    } else {
                        before.runs@[i]
                    },
                (None, None) => true,
                _ => false,
            },
    {
        let mut scheduler: Option<SchedulerView> = None;
        std::mem::swap(&mut scheduler, &mut self.scheduler);
        let mut view = match scheduler {
            Some(v) => v,
            None => {
                return;
            },
        };
        let i = first_unbound_index(&view.runs, run_id);
        if i < view.runs.len() {
            let mut run = view.runs[i].duplicate();
            run.session_id = Some(session_id.clone());
            view.runs.set(i, run);
            self.actions.push(SessionAction::BindScheduledSession { run_id, session_id });
        }
        self.scheduler = Some(view);
    }

    /// What `complete_scheduled_session` makes of the session.
    pub open spec fn scheduled_session_completed(before: Self, after: Self, run_id: i64, result: Result<String, String>, r: CompletionEffect) -> bool {
        &&& Self::same_settings(before, after)
        &&& r.changed && r.notice is None && r.reopen_path is None && r.fullscreen_result is None
        &&& after.scheduled_session_requests@ == before.scheduled_session_requests@.remove(run_id)
        &&& match result {
                    Ok(_) => after.scheduled_session_errors@ == before.scheduled_session_errors@.remove(run_id),
                    Err(e) => after.scheduled_session_errors@ == before.scheduled_session_errors@.insert(run_id, e)
                        && after.scheduler == before.scheduler,
                }
        &&& after.agents == before.agents
    }

    /// Takes in the OpenCode session a scheduled run was found to run.
    pub fn complete_scheduled_session(&mut self, run_id: i64, result: Result<String, String>) -> (r: CompletionEffect)
        requires
            old(self).wf(),
        ensures
            final(self).wf(),
            Self::scheduled_session_completed(*old(self), *final(self), run_id, result, r),

    {
        self.scheduled_session_requests.remove(run_id);
        match result {
            Ok(session_id) => {
                self.scheduled_session_errors.remove(run_id);
                self.bind_session(run_id, session_id);
            },
            Err(e) => {
                self.scheduled_session_errors.insert(run_id, e);
            },
        }
        CompletionEffect { changed: true, notice: None, reopen_path: None, fullscreen_result: None }
    }

    /// What `complete_scheduled_conversation` makes of the session.
    pub open spec fn scheduled_conversation_completed(before: Self, after: Self, identity: OpenCodeConversationIdentity, result: Result<TranscriptFetch, String>, r: CompletionEffect) -> bool {
        &&& Self::same_settings(before, after)
        &&& r.notice is None && r.reopen_path is None && r.fullscreen_result is None
        &&& after.latest_user_message_requests@ == before.latest_user_message_requests@.remove(identity.session_id@)
        &&& match result {
                    Err(e) => r.changed && after.scheduled_conversation_errors@ == before.scheduled_conversation_errors@.insert(identity.session_id@, e)
                        && Self::transcripts_kept(before, after),
                    Ok(TranscriptFetch::Unchanged) => r.changed == before.scheduled_conversation_errors@.dom().contains(identity.session_id@)
                        && after.scheduled_conversation_errors@ == before.scheduled_conversation_errors@.remove(identity.session_id@)
                        && Self::transcripts_kept(before, after),
                    Ok(TranscriptFetch::Changed(messages)) => Self::transcript_stored(before, after, identity.session_id@, messages)
                        && after.scheduled_conversation_errors@ == before.scheduled_conversation_errors@.remove(identity.session_id@)
                        && r.changed == (before.scheduled_conversation_errors@.dom().contains(identity.session_id@)
                            || !(before.latest_user_messages@.dom().contains(identity.session_id@)
                            && messages_view(before.latest_user_messages@[identity.session_id@].messages@) == messages_view(messages@))),
                }
        &&& after.agents == before.agents
    }

    /// Takes in a fetched transcript of a scheduled run.
    pub fn complete_scheduled_conversation(&mut self, identity: OpenCodeConversationIdentity, result: Result<TranscriptFetch, String>) -> (r: CompletionEffect)
        requires
            old(self).wf(),
        ensures
            final(self).wf(),
            Self::scheduled_conversation_completed(*old(self), *final(self), identity, result, r),

    {
        self.latest_user_message_requests.remove(identity.session_id.as_str());
        let changed = match result {
            Ok(TranscriptFetch::Changed(messages)) => {
                let had_error = self.scheduled_conversation_errors.remove(identity.session_id.as_str()).is_some();
                let stored = self.update_transcript(identity, messages);
                had_error || stored
            },
            Ok(TranscriptFetch::Unchanged) => self.scheduled_conversation_errors.remove(identity.session_id.as_str()).is_some(),
            Err(e) => {
                self.scheduled_conversation_errors.insert(identity.session_id, e);
                true
            },
        };
        CompletionEffect { changed, notice: None, reopen_path: None, fullscreen_result: None }
    }

    /// What `complete_snapshot` makes of the session.
    pub open spec fn snapshot_completed(before: Self, after: Self, result: Result<(Vec<HerdrWorkspace>, Vec<AgentPane>), String>, observed_at_ms: u64, r: CompletionEffect) -> bool {
        &&& Self::same_settings(before, after)
        &&& !after.loading
        &&& r.changed && r.notice is None && r.reopen_path is None && r.fullscreen_result is None
        &&& match result {
                    Ok((workspaces, _)) => after.workspaces == workspaces && after.error is None,
                    Err(e) => after.error == Some(e) && after.agents == before.agents,
                }
    }

    /// Takes in a snapshot of Herdr's workspaces and agents, or its error.
    pub fn complete_snapshot(&mut self, result: Result<(Vec<HerdrWorkspace>, Vec<AgentPane>), String>, observed_at_ms: u64) -> (r: CompletionEffect)
        requires
            old(self).wf(),
        ensures
            final(self).wf(),
            Self::snapshot_completed(*old(self), *final(self), result, observed_at_ms, r),

    {
        self.loading = false;
        match result {
            Ok((workspaces, agents)) => {
                self.workspaces = workspaces;
                self.apply_agent_snapshot_at(agents, observed_at_ms);
                self.error = None;
            },
            Err(e) => {
                self.error = Some(e);
            },
        }
        CompletionEffect { changed: true, notice: None, reopen_path: None, fullscreen_result: None }
    }

    /// What taking in the completion `c` at `now_ms` makes of the session,
    /// with the effect `r`: each kind of completion as its own step states.
    pub open spec fn completion_applied(before: Self, after: Self, c: Completion, now_ms: u64, r: CompletionEffect) -> bool {
        match c {
            Completion::Snapshot { result, observed_at_ms } => Self::snapshot_completed(before, after, result, observed_at_ms, r),
            Completion::Event { event, observed_at_ms } => match event {
                Event::AgentStatus(e) => {
                    &&& r == (CompletionEffect { changed: true, notice: None, reopen_path: None, fullscreen_result: None })
                    &&& exists|mid: Self| #[trigger] Self::status_event_applied(before, mid, e, observed_at_ms)
                        && after == (HerdrSession::<W> { next_refresh_ms: 0, ..mid })
                },
            },
            Completion::AgentDisplay {
                result,
                selected_key,
                outgoing_key,
                reopen_path,
                host_workspace_id,
                host_tab_id,
                selected_workspace_id,
                selected_tab_id,
            } => Self::agent_display_completed(
                before,
                after,
                result,
                selected_key,
                outgoing_key,
                reopen_path,
                host_workspace_id,
                host_tab_id,
                selected_workspace_id,
                selected_tab_id,
                now_ms,
                r,
            ),
            Completion::AgentStash { session_id, name, result } => Self::agent_stash_completed(before, after, session_id, name, result, r),
            Completion::AgentStashIdentity { result } => Self::stash_identity_completed(before, after, result, now_ms, r),
            Completion::Fullscreen { result } => Self::fullscreen_completed(before, after, result, r),
            Completion::LatestUserMessage { identity, result } => Self::latest_message_completed(before, after, identity, result, r),
            Completion::AgentPrompt { key, result } => Self::agent_prompt_completed(before, after, key, result, r),
            Completion::ScheduledPrompt { run_id, session_id, result } => Self::scheduled_prompt_completed(before, after, run_id, session_id, result, r),
            Completion::ScheduledSession { run_id, result } => Self::scheduled_session_completed(before, after, run_id, result, r),
            Completion::ScheduledConversation { identity, result } => Self::scheduled_conversation_completed(before, after, identity, result, r),
        }
    }

    /// Taking in the completions `cs` in order at `now_ms` leads from
    /// `before` to `after`.
    pub open spec fn completions_applied(before: Self, after: Self, cs: Seq<Completion>, now_ms: u64) -> bool
        decreases cs.len(),
    {
        if cs.len() == 0 {
            after == before
        } else {
            exists|mid: Self, e: CompletionEffect|
                Self::completions_applied(before, mid, cs.drop_last(), now_ms) && #[trigger] Self::completion_applied(
                    mid,
                    after,
                    cs.last(),
                    now_ms,
                    e,
                )
        }
    }

    /// Takes in one completion.
    pub fn apply_completion(&mut self, completion: Completion, now_ms: u64) -> (r: CompletionEffect)
        requires
            old(self).wf(),
            completion_wf(completion),
        ensures
            final(self).wf(),
            Self::same_settings(*old(self), *final(self)),
            !(completion is LatestUserMessage || completion is ScheduledConversation) ==> r.changed,
            Self::completion_applied(*old(self), *final(self), completion, now_ms, r),
    {
        let ghost before = *self;
        match completion {
            Completion::Snapshot { result, observed_at_ms } => self.complete_snapshot(result, observed_at_ms),
            Completion::Event { event, observed_at_ms } => {
                let Event::AgentStatus(event) = event;
                self.apply_agent_status_event_at(event, observed_at_ms);
                let ghost mid = *self;
                self.next_refresh_ms = 0;
                assert(Self::status_event_applied(before, mid, event, observed_at_ms));
                assert(*self == HerdrSession::<W> { next_refresh_ms: 0, ..mid });
                CompletionEffect { changed: true, notice: None, reopen_path: None, fullscreen_result: None }
            },
            Completion::AgentDisplay {
                result,
                selected_key,
                outgoing_key,
                reopen_path,
                host_workspace_id,
                host_tab_id,
                selected_workspace_id,
                selected_tab_id,
            } => self.complete_agent_display(
                result,
                selected_key,
                outgoing_key,
                reopen_path,
                host_workspace_id,
                host_tab_id,
                selected_workspace_id,
                selected_tab_id,
                now_ms,
            ),
            Completion::AgentStash { session_id, name, result } => self.complete_agent_stash(session_id, name, result),
            Completion::AgentStashIdentity { result } => self.complete_agent_stash_identity(result, now_ms),
            Completion::Fullscreen { result } => self.complete_fullscreen(result),
            Completion::LatestUserMessage { identity, result } => self.complete_latest_user_message(identity, result),
            Completion::AgentPrompt { key, result } => self.complete_agent_prompt(key, result),
            Completion::ScheduledPrompt { run_id, session_id, result } => self.complete_scheduled_prompt(run_id, session_id, result),
            Completion::ScheduledSession { run_id, result } => self.complete_scheduled_session(run_id, result),
            Completion::ScheduledConversation { identity, result } => self.complete_scheduled_conversation(identity, result),
        }
    }
}

fn first_unbound_index(runs: &Vec<ScheduledRun>, run_id: i64) -> (r: usize)
    ensures
        r == first_unbound_run(runs@, run_id),
        r <= runs@.len(),
{
    let mut i: usize = 0;
    while i < runs.len() && !(runs[i].id == run_id && runs[i].session_id.is_none())
        invariant
            i <= runs.len(),
            forall|k: int| 0 <= k < i ==> !((#[trigger] runs@[k]).id == run_id && runs@[k].session_id is None),
        decreases runs.len() - i,
    {
        i = i + 1;
    }
    proof {
        lemma_first_unbound_run(runs@, run_id, i as int);
    }
    i
}

/// The first run `run_id` that has no session, or the length of the list.
pub open spec fn first_unbound_run(runs: Seq<ScheduledRun>, run_id: i64) -> int
    decreases runs.len(),
{
    if runs.len() == 0 {
        0
    } else if runs[0].id == run_id && runs[0].session_id is None {
        0
    } else {
        1 + first_unbound_run(runs.drop_first(), run_id)
    }
}

proof fn lemma_first_unbound_run(runs: Seq<ScheduledRun>, run_id: i64, i: int)
    requires
        0 <= i <= runs.len(),
        forall|k: int| 0 <= k < i ==> !((#[trigger] runs[k]).id == run_id && runs[k].session_id is None),
        i == runs.len() || (runs[i].id == run_id && runs[i].session_id is None),
    ensures
        first_unbound_run(runs, run_id) == i,
    decreases i,
{
    if i > 0 {
        assert forall|k: int| 0 <= k < i - 1 implies !((#[trigger] runs.drop_first()[k]).id == run_id && runs.drop_first()[k].session_id is None) by {
            assert(runs.drop_first()[k] == runs[k + 1]);
        }
        lemma_first_unbound_run(runs.drop_first(), run_id, i - 1);
    }
}

/// The view of an optional string.
pub open spec fn notice_view(n: Option<String>) -> Option<Seq<char>> {
    opt_view(n)
}

/// The notice a poll reports before any timing outcome or completion: the
/// latest set of the scheduler's error, the error opening it, the timing
/// persistence notice and the queued message notice.
pub open spec fn base_notice(
    scheduler: Option<(bool, Option<String>)>,
    scheduler_error: Option<String>,
    persistence_notice: Option<String>,
    prompt_notice: Option<String>,
) -> Option<Seq<char>> {
    let n1 = match scheduler {
        Some((_, Some(e))) => Some("Scheduler: "@ + e@),
        _ => None,
    };
    let n2 = match scheduler_error {
        Some(e) => Some("Could not open scheduler: "@ + e@),
        None => n1,
    };
    let n3 = match persistence_notice {
        Some(n) => Some(n@),
        None => n2,
    };
    match prompt_notice {
        Some(n) => Some(n@),
        None => n3,
    }
}

/// The scheduler's poll reported a change.
pub open spec fn scheduler_changed(scheduler: Option<(bool, Option<String>)>) -> bool {
    match scheduler {
        Some((c, _)) => c,
        None => false,
    }
}

impl<W: Fn(&Vec<StashedAgent>) -> Result<(), String>> HerdrSession<W> {
    /// What `poll_at` makes of the session at `now_ms`.
    pub open spec fn polled(before: Self, after: Self, completions: Vec<Completion>, scheduler: Option<(bool, Option<String>)>, timing: Vec<TimingOutcome>, agent_animation_presented: bool, r: HerdrSessionPoll, now_ms: u64) -> bool {
        &&& !before.enabled ==> !r.changed && r.notice is None && r.reopen_path is None
                    && r.fullscreen_result is None && after.actions == before.actions
        &&& before.enabled ==> after.scheduler_error is None && after.agent_timing_persistence_notice is None
                    && (after.loading || now_ms < after.next_refresh_ms)
        &&& after.enabled == before.enabled
        &&& before.enabled && completions@.len() == 0 && timing@.len() == 0 ==> notice_view(r.notice) == base_notice(
                    scheduler,
                    before.scheduler_error,
                    before.agent_timing_persistence_notice,
                    before.agent_prompt_notice,
                ) && r.reopen_path is None && r.fullscreen_result is None
        &&& before.enabled && (!before.loading && before.next_refresh_ms <= now_ms) && completions@.len() == 0 ==> r.changed
        &&& before.enabled ==> exists|s1: Self, s2: Self, s3: Self, spun: bool| #[trigger] Self::poll_phases(
            before,
            s1,
            s2,
            s3,
            after,
            completions@,
            now_ms,
            agent_animation_presented,
            spun,
            r,
            timing@.len(),
            scheduler,
        )
    }

    /// The steps of a poll: the notices are taken and the timing outcomes
    /// reconciled (`s1`); the completions are taken in, in order (`s2`); a
    /// snapshot starts when one is due (`s3`); the spinner moves (`after`).
    /// A quiet poll, with nothing to take in, changed exactly when a snapshot
    /// started or the spinner moved.
    pub open spec fn poll_phases(
        before: Self,
        s1: Self,
        s2: Self,
        s3: Self,
        after: Self,
        cs: Seq<Completion>,
        now_ms: u64,
        presented: bool,
        spun: bool,
        r: HerdrSessionPoll,
        timing_count: nat,
        scheduler: Option<(bool, Option<String>)>,
    ) -> bool {
        let quiet = cs.len() == 0 && timing_count == 0 && !scheduler_changed(scheduler);
        &&& s1 == (HerdrSession::<W> {
            scheduler_error: None,
            agent_timing_persistence_notice: None,
            agent_prompt_notice: None,
            agent_timings: s1.agent_timings,
            ..before
        })
        &&& Self::completions_applied(s1, s2, cs, now_ms)
        &&& if !s2.loading && now_ms >= s2.next_refresh_ms {
            Self::snapshot_started(s2, s3, now_ms) && r.changed
        } else {
            s3 == s2
        }
        &&& Self::spinner_advanced(s3, after, now_ms, presented, spun)
        &&& spun ==> r.changed
        &&& quiet ==> r.changed == ((!s2.loading && now_ms >= s2.next_refresh_ms) || spun)
    }

    /// Takes in what happened since the last poll at `now_ms`: the scheduler's
    /// poll, the timing persistence outcomes and the completions, in order;
    /// then starts a snapshot when one is due and advances the spinner.
    #[verifier::rlimit(100)]
    pub fn poll_at(
        &mut self,
        completions: Vec<Completion>,
        scheduler: Option<(bool, Option<String>)>,
        timing: Vec<TimingOutcome>,
        agent_animation_presented: bool,
        now_ms: u64,
    ) -> (r: HerdrSessionPoll)
        requires
            old(self).wf(),
            forall|i: int| 0 <= i < completions@.len() ==> completion_wf(#[trigger] completions@[i]),
            forall|i: int| 0 <= i < timing@.len() ==> outcome_wf(#[trigger] timing@[i]),
        ensures
            final(self).wf(),
            Self::polled(*old(self), *final(self), completions, scheduler, timing, agent_animation_presented, r, now_ms),

    {
        if !self.enabled {
            return HerdrSessionPoll { changed: false, notice: None, reopen_path: None, fullscreen_result: None };
        }
        let ghost start = *self;
        let mut changed = false;
        let mut notice: Option<String> = None;
        if let Some((scheduler_moved, error)) = scheduler {
            changed = changed || scheduler_moved;
            if let Some(e) = error {
                notice = Some(prefixed("Scheduler: ", e.as_str()));
            }
        }
        assert(changed == scheduler_changed(scheduler));
        let mut open_error: Option<String> = None;
        std::mem::swap(&mut open_error, &mut self.scheduler_error);
        if let Some(e) = open_error {
            notice = Some(prefixed("Could not open scheduler: ", e.as_str()));
        }
        let mut persistence_notice: Option<String> = None;
        std::mem::swap(&mut persistence_notice, &mut self.agent_timing_persistence_notice);
        if let Some(n) = persistence_notice {
            notice = Some(n);
        }
        let mut prompt_notice: Option<String> = None;
        std::mem::swap(&mut prompt_notice, &mut self.agent_prompt_notice);
        if let Some(n) = prompt_notice {
            notice = Some(n);
        }
        let ghost base = notice_view(notice);
        let ghost no_timing = timing@.len() == 0;
        let ghost timing_count = timing@.len();
        let ghost s0 = *self;
        let ghost changed0 = changed;
        assert(s0 == (HerdrSession::<W> {
            scheduler_error: None,
            agent_timing_persistence_notice: None,
            agent_prompt_notice: None,
            agent_timings: s0.agent_timings,
            ..start
        }));
        let mut timing = timing;
        while timing.len() > 0
            invariant
                self.wf(),
                *self == (HerdrSession::<W> { agent_timings: self.agent_timings, ..s0 }),
                no_timing ==> changed == changed0,
                self.enabled,
                self.scheduler_error is None && self.agent_prompt_notice is None && self.agent_timing_persistence_notice is None,
                forall|i: int| 0 <= i < timing@.len() ==> outcome_wf(#[trigger] timing@[i]),
                no_timing ==> notice_view(notice) == base,
                no_timing ==> timing@.len() == 0,
                self.loading == old(self).loading && self.next_refresh_ms == old(self).next_refresh_ms,
            decreases timing.len(),
        {
            let outcome = timing.remove(0);
            assert(outcome_wf(outcome));
            match outcome {
                TimingOutcome::Completed { clear_generation, submitted, result } => match result {
                    Ok(persisted) => {
                        if clear_generation == self.agent_timing_clear_generation {
                            let c = reconcile(&mut self.agent_timings, &submitted, persisted);
                            changed = changed || c;
                        }
                    },
                    Err(e) => {
                        notice = Some(prefixed("Could not persist agent timing history: ", e.as_str()));
                    },
                },
                TimingOutcome::Stopped => {
                    notice = Some(String::from_str("Could not persist agent timing history: agent timing persistence worker stopped"));
                },
            }
        }
        let mut reopen_path: Option<String> = None;
        let mut fullscreen_result: Option<Result<bool, String>> = None;
        let mut completions = completions;
        let ghost any_completion = completions@.len() > 0;
        let ghost s1 = *self;
        let ghost all = completions@;
        let ghost changed1 = changed;
        let ghost mut k: int = 0;
        while completions.len() > 0
            invariant
                0 <= k <= all.len(),
                completions@ == all.skip(k),
                Self::completions_applied(s1, *self, all.take(k), now_ms),
                !any_completion ==> changed == changed1,
                self.wf(),
                self.enabled,
                forall|i: int| 0 <= i < completions@.len() ==> completion_wf(#[trigger] completions@[i]),
                !any_completion && no_timing ==> notice_view(notice) == base && reopen_path is None && fullscreen_result is None,
                !any_completion ==> self.loading == old(self).loading && self.next_refresh_ms == old(self).next_refresh_ms,
                !any_completion ==> completions@.len() == 0,
                self.enabled == old(self).enabled,
                self.scheduler_error is None && self.agent_timing_persistence_notice is None,
            decreases completions.len(),
        {
            assert(completions@[0] == all[k]);
            let completion = completions.remove(0);
            assert(completions@ =~= all.skip(k + 1));
            assert(completion_wf(completion));
            let ghost c = completion;
            let ghost mid = *self;
            let effect = self.apply_completion(completion, now_ms);
            proof {
                assert(all.take(k + 1).drop_last() =~= all.take(k));
                assert(all.take(k + 1).last() == c);
                assert(Self::completion_applied(mid, *self, c, now_ms, effect));
                k = k + 1;
            }
            changed = changed || effect.changed;
            if let Some(n) = effect.notice {
                notice = Some(n);
            }
            if let Some(p) = effect.reopen_path {
                reopen_path = p;
            }
            if let Some(f) = effect.fullscreen_result {
                fullscreen_result = Some(f);
            }
        }
        assert(all.take(k) =~= all);
        let ghost s2 = *self;
        if !self.loading && now_ms >= self.next_refresh_ms {
            self.start_snapshot_at(now_ms);
            changed = true;
        }
        let ghost s3 = *self;
        let spun = self.poll_spinner(now_ms, agent_animation_presented);
        changed = changed || spun;
        let r = HerdrSessionPoll { changed, notice, reopen_path, fullscreen_result };
        assert(Self::poll_phases(
            start,
            s1,
            s2,
            s3,
            *self,
            all,
            now_ms,
            agent_animation_presented,
            spun,
            r,
            timing_count,
            scheduler,
        ));
        r
    }

    /// Takes in what happened since the last poll, now.
    pub fn poll(
        &mut self,
        completions: Vec<Completion>,
        scheduler: Option<(bool, Option<String>)>,
        timing: Vec<TimingOutcome>,
        agent_animation_presented: bool,
    ) -> (r: HerdrSessionPoll)
        requires
            old(self).wf(),
            forall|i: int| 0 <= i < completions@.len() ==> completion_wf(#[trigger] completions@[i]),
            forall|i: int| 0 <= i < timing@.len() ==> outcome_wf(#[trigger] timing@[i]),
        ensures
            final(self).wf(),
            !old(self).enabled ==> !r.changed && r.notice is None,
            old(self).enabled && completions@.len() == 0 && timing@.len() == 0 ==> notice_view(r.notice) == base_notice(
                scheduler,
                old(self).scheduler_error,
                old(self).agent_timing_persistence_notice,
                old(self).agent_prompt_notice,
            ),
            exists|now_ms: u64| #[trigger] Self::polled(*old(self), *final(self), completions, scheduler, timing, agent_animation_presented, r, now_ms),
    {
        let now_ms = unix_time_ms();
        self.poll_at(completions, scheduler, timing, agent_animation_presented, now_ms)
    }
}

/// The lowercase hexadecimal digit of `n`.
pub open spec fn hex_digit(n: int) -> char {
    if n < 10 {
        ((48 + n) as u32) as char
    } else {
        ((87 + n) as u32) as char
    }
}

/// Each byte as two lowercase hexadecimal digits.
pub open spec fn hex_bytes(b: Seq<u8>) -> Seq<char>
    decreases b.len(),
{
    if b.len() == 0 {
        seq![]
    } else {
        hex_bytes(b.drop_last()) + seq![hex_digit((b.last() / 16) as int), hex_digit((b.last() % 16) as int)]
    }
}

/// A path joined with a file name (`Path::join`), as text.
pub uninterp spec fn path_joined(base: Seq<char>, name: Seq<char>) -> Seq<char>;

/// Calls `Path::join` and reads the result as text. As `Path::join` and
/// `PathBuf::push` document it on Unix: an absolute name (one that starts
/// with `/`) replaces the base, and a relative name is added to a base that
/// does not end in `/` after a separator. The other cases (an empty base, or
/// one that ends in `/`) are left to the name `path_joined`.
#[verifier::external_body]
fn join_path(base: &str, name: &str) -> (r: String)
    ensures
        r@ == path_joined(base@, name@),
        name@.len() > 0 && name@[0] == '/' ==> r@ == name@,
        !(name@.len() > 0 && name@[0] == '/') && base@.len() > 0 && base@.last() != '/' ==> r@ == base@
            + seq!['/'] + name@,
{
    std::path::Path::new(base).join(name).to_string_lossy().into_owned()
}

fn hex_digit_of(n: u8) -> (c: char)
    requires
        n < 16,
    ensures
        c == hex_digit(n as int),
{
    if n < 10 {
        ((48 + n) as u8) as char
    } else {
        ((87 + n) as u8) as char
    }
}

/// Where the saved layouts of Hunkle's pane `host_pane_id` are kept: a file
/// under `agent-layouts` named by the pane id's bytes in hexadecimal.
pub fn agent_layouts_path(config_dir: &str, host_pane_id: &str) -> (r: String)
    ensures
        r@ == path_joined(
            path_joined(config_dir@, "agent-layouts"@),
            hex_bytes(host_pane_id.spec_bytes()) + ".json"@,
        ),
{
    let bytes = host_pane_id.as_bytes();
    let mut name: Vec<char> = Vec::new();
    let mut i: usize = 0;
    while i < bytes.len()
        invariant
            i <= bytes.len(),
            bytes@ == host_pane_id.spec_bytes(),
            name@ == hex_bytes(bytes@.take(i as int)),
        decreases bytes.len() - i,
    {
        assert(bytes@.take(i + 1).drop_last() =~= bytes@.take(i as int));
        let b = bytes[i];
        name.push(hex_digit_of(b / 16));
        name.push(hex_digit_of(b % 16));
        assert(name@ =~= hex_bytes(bytes@.take(i + 1)));
        i = i + 1;
    }
    assert(bytes@.take(bytes.len() as int) =~= bytes@);
    let mut file = crate::text::string_of(name.as_slice());
    append_str(&mut file, ".json");
    let directory = join_path(config_dir, "agent-layouts");
    join_path(directory.as_str(), file.as_str())
}

/// Keeps at most `MAX_AGENT_LAYOUTS` saved layouts, evicting the least
/// recently used first; the layouts of `relevant` agents stay.
pub fn prune_agent_layouts(layouts: &mut KeyedTable<SavedAgentLayout>, relevant: &Vec<AgentTimingKey>)
    requires
        old(layouts).wf(),
    ensures
        final(layouts).wf(),
        old(layouts)@.len() <= MAX_AGENT_LAYOUTS ==> final(layouts)@ == old(layouts)@,
        kept_from(old(layouts)@, final(layouts)@),
        crate::table::evicted_in_order(old(layouts)@, final(layouts)@, relevant@),
        old(layouts)@.len() > MAX_AGENT_LAYOUTS ==> final(layouts)@.len() >= MAX_AGENT_LAYOUTS,
        forall|k: TimingKeyView| old(layouts)@.dom().contains(k) && key_in(relevant@, k) ==> #[trigger] final(layouts)@.dom().contains(k),
        final(layouts)@.len() > MAX_AGENT_LAYOUTS ==> forall|k: TimingKeyView| #[trigger] final(layouts)@.dom().contains(k) ==> key_in(relevant@, k),
{
    layouts.prune(relevant, MAX_AGENT_LAYOUTS, false);
}

/// The branch a `HEAD` file names: its trimmed text after `ref: refs/heads/`, when not empty.
pub fn branch_from_head(content: &str) -> (r: Option<String>)
    ensures
        ({
            let t = crate::text::trim(content@);
            let prefix = "ref: refs/heads/"@;
            if t.len() > prefix.len() && t.take(prefix.len() as int) == prefix {
                r matches Some(b) && b@ == t.skip(prefix.len() as int)
            } else {
                r is None
            }
        }),
{
    let chars = crate::text::chars_of(content);
    let trimmed = crate::text::trim_chars(&chars);
    let prefix = crate::text::chars_of("ref: refs/heads/");
    proof {
        reveal_strlit("ref: refs/heads/");
    }
    if trimmed.len() <= prefix.len() {
        return None;
    }
    let mut i: usize = 0;
    while i < prefix.len()
        invariant
            i <= prefix.len(),
            prefix.len() < trimmed.len(),
            trimmed@ == crate::text::trim(content@),
            prefix@ == "ref: refs/heads/"@,
            forall|k: int| 0 <= k < i ==> trimmed@[k] == prefix@[k],
        decreases prefix.len() - i,
    {
        if trimmed[i] != prefix[i] {
            assert(trimmed@.take(prefix.len() as int)[i as int] != prefix@[i as int]);
            return None;
        }
        i = i + 1;
    }
    assert(trimmed@.take(prefix.len() as int) =~= prefix@);
    let mut branch: Vec<char> = Vec::new();
    let mut k: usize = prefix.len();
    while k < trimmed.len()
        invariant
            prefix.len() <= k <= trimmed.len(),
            trimmed@ == crate::text::trim(content@),
            prefix@ == "ref: refs/heads/"@,
            branch@ == trimmed@.subrange(prefix.len() as int, k as int),
        decreases trimmed.len() - k,
    {
        branch.push(trimmed[k]);
        assert(branch@ =~= trimmed@.subrange(prefix.len() as int, k + 1));
        k = k + 1;
    }
    assert(branch@ =~= trimmed@.skip(prefix.len() as int));
    Some(crate::text::string_of(branch.as_slice()))
}

/// Sets each workspace's branch to what `branch_of` finds for its path; a
/// workspace without a path has none.
pub fn populate_workspace_branches<F: Fn(&String) -> Option<String>>(workspaces: &mut Vec<HerdrWorkspace>, branch_of: &F)
    requires
        forall|p: &String| #[trigger] branch_of.requires((p,)),
    ensures
        final(workspaces)@.len() == old(workspaces)@.len(),
        forall|i: int| 0 <= i < old(workspaces)@.len() ==> {
            let before = old(workspaces)@[i];
            let after = #[trigger] final(workspaces)@[i];
            &&& after == HerdrWorkspace { branch: after.branch, ..before }
            &&& match before.path {
                None => after.branch is None,
                Some(p) => exists|q: &String| q@ == p@ && #[trigger] branch_of.ensures((q,), after.branch),
            }
        },
{
    let mut i: usize = 0;
    while i < workspaces.len()
        invariant
            i <= workspaces.len(),
            workspaces@.len() == old(workspaces)@.len(),
            forall|q: &String| #[trigger] branch_of.requires((q,)),
            forall|k: int| i <= k < workspaces@.len() ==> #[trigger] workspaces@[k] == old(workspaces)@[k],
            forall|k: int| 0 <= k < i ==> {
                let before = old(workspaces)@[k];
                let after = #[trigger] workspaces@[k];
                &&& after == HerdrWorkspace { branch: after.branch, ..before }
                &&& match before.path {
                    None => after.branch is None,
                    Some(p) => exists|q: &String| q@ == p@ && #[trigger] branch_of.ensures((q,), after.branch),
                }
            },
        decreases workspaces.len() - i,
    {
        let branch = match &workspaces[i].path {
            Some(p) => {
                let b = branch_of(p);
                proof {
                    assert(branch_of.ensures((p,), b));
                }
                b
            },
            None => None,
        };
        let w = &workspaces[i];
        let updated = HerdrWorkspace {
            id: w.id.clone(),
            label: w.label.clone(),
            path: clone_opt_string(&w.path),
            branch,
            parent_workspace_id: clone_opt_string(&w.parent_workspace_id),
            repo_root: clone_opt_string(&w.repo_root),
            linked_worktree: w.linked_worktree,
        };
        workspaces.set(i, updated);
        i = i + 1;
    }
}

impl<W: Fn(&Vec<StashedAgent>) -> Result<(), String>> HerdrSession<W> {
    /// The session of the environment Hunkle runs in: enabled inside Herdr,
    /// attached to Hunkle's pane, keeping timing history and saved layouts
    /// under `config_dir` when it is given.
    pub fn detect(environment: Option<crate::client::Environment>, config_dir: Option<String>, stash: AgentStashStore, stash_writer: W) -> (r: Self)
        requires
            forall|v: &Vec<StashedAgent>| #[trigger] stash_writer.requires((v,)),
        ensures
            r.wf(),
            r.enabled == environment is Some,
            r.agent_timing_persisted == (environment is Some && config_dir is Some),
            match environment {
                None => r.actions@.len() == 0 && r.host_pane_id is None,
                Some(env) => r.host_workspace_id == env.workspace_id && r.host_tab_id == env.tab_id && r.host_pane_id == env.pane_id
                    && r.agent_layouts_persisted == (config_dir is Some && env.pane_id is Some)
                    && r.actions@.last() is OpenScheduler,
            },
    {
        let enabled = environment.is_some();
        let mut session = Self::new(enabled, config_dir.is_some(), stash, stash_writer);
        if let Some(environment) = environment {
            session.host_workspace_id = environment.workspace_id;
            session.host_tab_id = environment.tab_id;
            session.host_pane_id = environment.pane_id;
            if let (Some(config_dir), Some(host_pane_id)) = (&config_dir, &session.host_pane_id) {
                let path = agent_layouts_path(config_dir.as_str(), host_pane_id.as_str());
                session.agent_layouts_persisted = true;
                session.actions.push(SessionAction::LoadLayouts { path });
            }
            session.actions.push(SessionAction::StartEventListener);
            session.actions.push(SessionAction::OpenScheduler);
        }
        session
    }

    /// Takes in the saved layouts that were loaded.
    pub fn restore_agent_layouts(&mut self, layouts: KeyedTable<SavedAgentLayout>)
        requires
            old(self).wf(),
            layouts.wf(),
        ensures
            final(self).wf(),
            Self::same_but_layouts(*old(self), *final(self)),
            final(self).agent_layouts@ == layouts@,
    {
        self.agent_layouts = layouts;
    }

    /// Takes in the scheduler as it was opened, or why it could not be.
    pub fn scheduler_opened(&mut self, result: Result<SchedulerView, String>)
        requires
            old(self).wf(),
        ensures
            final(self).wf(),
            final(self).agents == old(self).agents,
            match result {
                Ok(v) => final(self).scheduler == Some(v) && final(self).scheduler_error == old(self).scheduler_error,
                Err(e) => final(self).scheduler == old(self).scheduler && final(self).scheduler_error == Some(e),
            },
    {
        match result {
            Ok(v) => {
                self.scheduler = Some(v);
            },
            Err(e) => {
                self.scheduler_error = Some(e);
            },
        }
    }

    /// Takes in the scheduler's tasks and runs as last loaded.
    pub fn update_scheduler(&mut self, tasks: Vec<ScheduledTask>, runs: Vec<ScheduledRun>)
        requires
            old(self).wf(),
        ensures
            final(self).wf(),
            Self::same_settings(*old(self), *final(self)),
            old(self).scheduler is Some ==> (final(self).scheduler matches Some(v) && v.tasks == tasks && v.runs == runs),
            old(self).scheduler is None ==> final(self).scheduler is None,
            final(self).agents == old(self).agents,
    {
        if self.scheduler.is_some() {
            self.scheduler = Some(SchedulerView { tasks, runs });
        }
    }

    pub fn set_scheduled_tasks_for_test(&mut self, tasks: Vec<ScheduledTask>)
        requires
            old(self).wf(),
        ensures
            final(self).wf(),
            final(self).scheduler matches Some(v) && v.tasks == tasks && v.runs@.len() == 0,
            final(self).agents == old(self).agents,
    {
        self.scheduler = Some(SchedulerView { tasks, runs: Vec::new() });
    }

    pub fn set_scheduled_runs_for_test(&mut self, runs: Vec<ScheduledRun>)
        requires
            old(self).wf(),
            old(self).scheduler is Some,
        ensures
            final(self).wf(),
            final(self).scheduler matches Some(v) && v.runs == runs && v.tasks == old(self).scheduler.unwrap().tasks,
            final(self).agents == old(self).agents,
    {
        let mut scheduler: Option<SchedulerView> = None;
        std::mem::swap(&mut scheduler, &mut self.scheduler);
        if let Some(v) = scheduler {
            self.scheduler = Some(SchedulerView { tasks: v.tasks, runs });
        }
    }

    pub fn set_host_for_test(&mut self, workspace: &str, tab: &str, pane: &str)
        requires
            old(self).wf(),
        ensures
            final(self).wf(),
            opt_view(final(self).host_workspace_id) == Some(workspace@),
            opt_view(final(self).host_tab_id) == Some(tab@),
            opt_view(final(self).host_pane_id) == Some(pane@),
            final(self).agents == old(self).agents,
    {
        self.host_workspace_id = Some(workspace.to_owned());
        self.host_tab_id = Some(tab.to_owned());
        self.host_pane_id = Some(pane.to_owned());
    }

    pub fn set_fullscreen_for_test(&mut self, fullscreen: bool)
        requires
            old(self).wf(),
        ensures
            final(self).wf(),
            final(self).fullscreen == fullscreen,
            final(self).agents == old(self).agents,
    {
        self.fullscreen = fullscreen;
    }

    pub fn set_stashed_agents_for_test(&mut self, agents: Vec<StashedAgent>)
        requires
            old(self).wf(),
        ensures
            final(self).wf(),
            final(self).stash.agents == agents,
            final(self).agents == old(self).agents,
    {
        self.stash.agents = agents;
    }

    /// Stores a one-message transcript for a scheduled run's session.
    pub fn set_scheduled_conversation_for_test(&mut self, session_id: &str, user: &str, response: &str)
        requires
            old(self).wf(),
        ensures
            final(self).wf(),
            final(self).latest_user_messages@.dom().contains(session_id@),
            final(self).agents == old(self).agents,
    {
        let mut parts: Vec<crate::transcript::AgentRequestPartPreview> = Vec::new();
        parts.push(crate::transcript::AgentRequestPartPreview::Text(response.to_owned()));
        let mut requests: Vec<crate::transcript::AgentRequestPreview> = Vec::new();
        requests.push(crate::transcript::AgentRequestPreview {
            parts,
            reasoning_active: false,
            duration_ms: None,
            reasoning_duration_ms: None,
            tool_call_count: 0,
        });
        let mut messages: Vec<AgentUserMessage> = Vec::new();
        messages.push(AgentUserMessage { text: user.to_owned(), requests });
        self.update_transcript(scheduled_conversation_identity(session_id), messages);
    }
}

} // verus!
