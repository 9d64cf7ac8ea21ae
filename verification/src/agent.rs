//! The agents that Herdr reports, and the keys that identify their timing and
//! conversation history.
use vstd::prelude::*;

verus! {

/// What Herdr reports an agent to be doing.
#[derive(Debug, Clone, Copy, PartialEq, Eq, Structural)]
pub enum AgentStatus {
    Idle,
    Working,
    Blocked,
    Done,
    Unknown,
}

impl AgentStatus {
    pub open spec fn spec_should_track_timing(self) -> bool {
        self == AgentStatus::Working || self == AgentStatus::Blocked
    }

    /// Whether an agent in this status accumulates running time.
    pub fn should_track_timing(self) -> (r: bool)
        ensures
            r == self.spec_should_track_timing(),
    {
        match self {
            AgentStatus::Working | AgentStatus::Blocked => true,
            _ => false,
        }
    }

    pub open spec fn spec_is_resting(self) -> bool {
        self == AgentStatus::Idle || self == AgentStatus::Done
    }

    /// Whether an agent in this status accepts a queued message.
    pub fn is_resting(self) -> (r: bool)
        ensures
            r == self.spec_is_resting(),
    {
        match self {
            AgentStatus::Idle | AgentStatus::Done => true,
            _ => false,
        }
    }
}

/// The status text that Herdr reports, read as a status.
pub open spec fn spec_parse_agent_status(value: Option<Seq<char>>) -> AgentStatus {
    match value {
        Some(v) => if v == "idle"@ {
            AgentStatus::Idle
        } else if v == "working"@ {
            AgentStatus::Working
        } else if v == "blocked"@ {
            AgentStatus::Blocked
        } else if v == "done"@ {
            AgentStatus::Done
        } else {
            AgentStatus::Unknown
        },
        None => AgentStatus::Unknown,
    }
}

pub fn str_eq(a: &str, b: &str) -> (r: bool)
    ensures
        r == (a@ == b@),
{
    let x = a.to_owned();
    let y = b.to_owned();
    x == y
}

pub fn parse_agent_status(value: Option<&str>) -> (r: AgentStatus)
    ensures
        r == spec_parse_agent_status(
            match value {
                Some(v) => Some(v@),
                None => None,
            },
        ),
{
    match value {
        Some(v) => {
            proof {
                reveal_strlit("idle");
                reveal_strlit("working");
                reveal_strlit("blocked");
                reveal_strlit("done");
            }
            if str_eq(v, "idle") {
                AgentStatus::Idle
            } else if str_eq(v, "working") {
                AgentStatus::Working
            } else if str_eq(v, "blocked") {
                AgentStatus::Blocked
            } else if str_eq(v, "done") {
                AgentStatus::Done
            } else {
                AgentStatus::Unknown
            }
        },
        None => AgentStatus::Unknown,
    }
}

/// The session an agent reports (`agent_session` in Herdr's snapshot).
#[derive(Debug, PartialEq, Eq)]
pub struct AgentSessionIdentity {
    pub source: String,
    pub agent: String,
    pub kind: String,
    pub value: String,
}

pub struct SessionIdentityView {
    pub source: Seq<char>,
    pub agent: Seq<char>,
    pub kind: Seq<char>,
    pub value: Seq<char>,
}

impl View for AgentSessionIdentity {
    type V = SessionIdentityView;

    open spec fn view(&self) -> SessionIdentityView {
        SessionIdentityView {
            source: self.source@,
            agent: self.agent@,
            kind: self.kind@,
            value: self.value@,
        }
    }
}

impl AgentSessionIdentity {
    /// The identity of an OpenCode session that Hunkle looked up itself, by
    /// its id.
    pub fn looked_up(value: String) -> (r: Self)
        ensures
            r@ == (SessionIdentityView {
                source: "hunkle:opencode"@,
                agent: "opencode"@,
                kind: "id"@,
                value: value@,
            }),
    {
        AgentSessionIdentity {
            source: String::from_str("hunkle:opencode"),
            agent: String::from_str("opencode"),
            kind: String::from_str("id"),
            value,
        }
    }

    pub fn duplicate(&self) -> (r: Self)
        ensures
            r == *self,
    {
        AgentSessionIdentity {
            source: self.source.clone(),
            agent: self.agent.clone(),
            kind: self.kind.clone(),
            value: self.value.clone(),
        }
    }

    pub fn same_as(&self, other: &Self) -> (r: bool)
        ensures
            r == (self@ == other@),
    {
        self.source == other.source && self.agent == other.agent && self.kind == other.kind
            && self.value == other.value
    }
}

/// The key under which an agent's timing and saved layout are kept.
#[derive(Debug, PartialEq, Eq)]
pub enum AgentTimingKey {
    Session(AgentSessionIdentity),
    Terminal(String),
    Pane(String),
}

pub enum TimingKeyView {
    Session(SessionIdentityView),
    Terminal(Seq<char>),
    Pane(Seq<char>),
}

impl View for AgentTimingKey {
    type V = TimingKeyView;

    open spec fn view(&self) -> TimingKeyView {
        match self {
            AgentTimingKey::Session(identity) => TimingKeyView::Session(identity@),
            AgentTimingKey::Terminal(t) => TimingKeyView::Terminal(t@),
            AgentTimingKey::Pane(p) => TimingKeyView::Pane(p@),
        }
    }
}

impl AgentTimingKey {
    pub fn duplicate(&self) -> (r: Self)
        ensures
            r == *self,
            r@ == self@,
    {
        match self {
            AgentTimingKey::Session(identity) => AgentTimingKey::Session(identity.duplicate()),
            AgentTimingKey::Terminal(t) => AgentTimingKey::Terminal(t.clone()),
            AgentTimingKey::Pane(p) => AgentTimingKey::Pane(p.clone()),
        }
    }

    /// Key equality, by value.
    pub fn same_as(&self, other: &Self) -> (r: bool)
        ensures
            r == (self@ == other@),
    {
        match (self, other) {
            (AgentTimingKey::Session(a), AgentTimingKey::Session(b)) => a.same_as(b),
            (AgentTimingKey::Terminal(a), AgentTimingKey::Terminal(b)) => *a == *b,
            (AgentTimingKey::Pane(a), AgentTimingKey::Pane(b)) => *a == *b,
            _ => false,
        }
    }
}

pub fn clone_opt_string(o: &Option<String>) -> (r: Option<String>)
    ensures
        r == *o,
{
    match o {
        Some(s) => Some(s.clone()),
        None => None,
    }
}

pub open spec fn opt_view(o: Option<String>) -> Option<Seq<char>> {
    match o {
        Some(s) => Some(s@),
        None => None,
    }
}

pub fn opt_string_eq(a: &Option<String>, b: &Option<String>) -> (r: bool)
    ensures
        r == (opt_view(*a) == opt_view(*b)),
{
    match (a, b) {
        (Some(x), Some(y)) => *x == *y,
        (None, None) => true,
        _ => false,
    }
}

/// Whether an optional string holds exactly `s`.
pub fn opt_is(a: &Option<String>, s: &String) -> (r: bool)
    ensures
        r == (opt_view(*a) == Some(s@)),
{
    match a {
        Some(x) => *x == *s,
        None => false,
    }
}

/// What Herdr reports of the agent program running in a pane.
#[derive(Debug)]
pub struct AgentRuntime {
    pub name: String,
    pub session_name: Option<String>,
    pub status: AgentStatus,
    pub timing_key: AgentTimingKey,
    pub session_timing_key: Option<AgentTimingKey>,
    pub state_change_seq: u64,
}

/// One agent pane of the Herdr session. Paths are held as text.
#[derive(Debug)]
pub struct AgentPane {
    pub workspace_id: String,
    pub tab_id: String,
    pub pane_id: String,
    pub terminal_id: Option<String>,
    pub instance_name: Option<String>,
    pub cwd: Option<String>,
    pub destination_cwd: Option<String>,
    pub focused: bool,
    pub runtime: AgentRuntime,
}

pub fn clone_opt_key(o: &Option<AgentTimingKey>) -> (r: Option<AgentTimingKey>)
    ensures
        r == *o,
{
    match o {
        Some(k) => Some(k.duplicate()),
        None => None,
    }
}

impl AgentRuntime {
    pub fn duplicate(&self) -> (r: Self)
        ensures
            r == *self,
    {
        AgentRuntime {
            name: self.name.clone(),
            session_name: clone_opt_string(&self.session_name),
            status: self.status,
            timing_key: self.timing_key.duplicate(),
            session_timing_key: clone_opt_key(&self.session_timing_key),
            state_change_seq: self.state_change_seq,
        }
    }
}

impl AgentPane {
    pub fn duplicate(&self) -> (r: Self)
        ensures
            r == *self,
    {
        AgentPane {
            workspace_id: self.workspace_id.clone(),
            tab_id: self.tab_id.clone(),
            pane_id: self.pane_id.clone(),
            terminal_id: clone_opt_string(&self.terminal_id),
            instance_name: clone_opt_string(&self.instance_name),
            cwd: clone_opt_string(&self.cwd),
            destination_cwd: clone_opt_string(&self.destination_cwd),
            focused: self.focused,
            runtime: self.runtime.duplicate(),
        }
    }

    /// The key of this agent's timing history.
    pub open spec fn key(self) -> TimingKeyView {
        self.runtime.timing_key@
    }
}

/// Copies a list of agents.
pub fn duplicate_agents(agents: &Vec<AgentPane>) -> (r: Vec<AgentPane>)
    ensures
        r@ == agents@,
{
    let mut out: Vec<AgentPane> = Vec::new();
    let mut i: usize = 0;
    while i < agents.len()
        invariant
            i <= agents.len(),
            out@ == agents@.take(i as int),
        decreases agents.len() - i,
    {
        out.push(agents[i].duplicate());
        assert(out@ =~= agents@.take(i + 1));
        i = i + 1;
    }
    assert(agents@.take(agents.len() as int) =~= agents@);
    out
}

/// The OpenCode conversation that an agent session belongs to.
pub struct OpenCodeConversationIdentity {
    pub session_id: String,
}

impl OpenCodeConversationIdentity {
    /// The conversation of an OpenCode session; none for other agents.
    pub fn from_agent_session(identity: &AgentSessionIdentity) -> (r: Option<Self>)
        ensures
            identity.agent@ == "opencode"@ <==> r is Some,
            r matches Some(c) ==> c.session_id@ == identity.value@,
    {
        let opencode = String::from_str("opencode");
        proof {
            reveal_strlit("opencode");
        }
        if identity.agent == opencode {
            Some(OpenCodeConversationIdentity { session_id: identity.value.clone() })
        } else {
            None
        }
    }

    pub fn from_session_id(session_id: &str) -> (r: Self)
        ensures
            r.session_id@ == session_id@,
    {
        OpenCodeConversationIdentity { session_id: session_id.to_owned() }
    }
}

/// The conversation identity of a scheduled run's OpenCode session.
pub fn scheduled_conversation_identity(session_id: &str) -> (r: OpenCodeConversationIdentity)
    ensures
        r.session_id@ == session_id@,
{
    OpenCodeConversationIdentity::from_session_id(session_id)
}

/// The OpenCode session id an agent reports in either of its keys, if any.
pub open spec fn key_is_opencode_session(key: TimingKeyView, session_id: Seq<char>) -> bool {
    match key {
        TimingKeyView::Session(identity) => identity.agent == "opencode"@ && identity.value
            == session_id,
        _ => false,
    }
}

pub open spec fn spec_agent_has_opencode_session(agent: AgentPane, session_id: Seq<char>) -> bool {
    ||| key_is_opencode_session(agent.runtime.timing_key@, session_id)
    ||| (agent.runtime.session_timing_key matches Some(k) && key_is_opencode_session(
        k@,
        session_id,
    ))
}

fn key_has_opencode_session(key: &AgentTimingKey, session_id: &str) -> (r: bool)
    ensures
        r == key_is_opencode_session(key@, session_id@),
{
    match key {
        AgentTimingKey::Session(identity) => {
            let opencode = String::from_str("opencode");
            proof {
                reveal_strlit("opencode");
            }
            identity.agent == opencode && str_eq(identity.value.as_str(), session_id)
        },
        _ => false,
    }
}

/// Whether the agent runs the OpenCode session `session_id`.
pub fn agent_has_opencode_session(agent: &AgentPane, session_id: &str) -> (r: bool)
    ensures
        r == spec_agent_has_opencode_session(*agent, session_id@),
{
    if key_has_opencode_session(&agent.runtime.timing_key, session_id) {
        return true;
    }
    match &agent.runtime.session_timing_key {
        Some(k) => key_has_opencode_session(k, session_id),
        None => false,
    }
}

} // verus!
