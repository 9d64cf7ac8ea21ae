//! Scheduled tasks: their runs and statuses, the task files that define
//! project tasks, and the messages a finished run sends.
use vstd::prelude::*;
use crate::agent::{AgentStatus, str_eq};
use crate::text::{
    append_str, chars_of, join, join_chars, lemma_utf8_len_bound, lemma_utf8_len_concat, split_whitespace, string_of,
    trim, trim_chars, truncate_utf8, utf8_fits, utf8_len, utf8_len_exec, utf8_prefix_len, words,
};

verus! {

/// A task that Hunkle runs on a schedule. Paths are held as text.
#[derive(Debug)]
pub struct ScheduledTask {
    pub id: i64,
    pub title: String,
    pub description: String,
    pub prompt: String,
    pub model: String,
    pub discord_webhook_id: String,
    pub destination: String,
    pub repository: String,
    pub branch: String,
    pub enabled: bool,
    pub interval_minutes: u64,
    pub next_run_ms: i64,
    pub source: Option<String>,
    pub project_status: Option<ProjectTaskStatus>,
}

/// The fields of a task that a user or a task file sets.
#[derive(Debug, PartialEq, Eq)]
pub struct ScheduledTaskEdit {
    pub title: String,
    pub description: String,
    pub prompt: String,
    pub model: String,
    pub discord_webhook_id: String,
    pub destination: String,
    pub repository: String,
    pub branch: String,
    pub enabled: bool,
    pub interval_minutes: u64,
}

/// Where a project task runs unless its file says otherwise.
#[derive(Debug)]
pub struct ScheduledTaskDestination {
    pub path: String,
    pub repository: String,
    pub branch: String,
}

/// A task's fields, by value.
pub struct TaskEditView {
    pub title: Seq<char>,
    pub description: Seq<char>,
    pub prompt: Seq<char>,
    pub model: Seq<char>,
    pub discord_webhook_id: Seq<char>,
    pub destination: Seq<char>,
    pub repository: Seq<char>,
    pub branch: Seq<char>,
    pub enabled: bool,
    pub interval_minutes: nat,
}

impl View for ScheduledTaskEdit {
    type V = TaskEditView;

    open spec fn view(&self) -> TaskEditView {
        TaskEditView {
            title: self.title@,
            description: self.description@,
            prompt: self.prompt@,
            model: self.model@,
            discord_webhook_id: self.discord_webhook_id@,
            destination: self.destination@,
            repository: self.repository@,
            branch: self.branch@,
            enabled: self.enabled,
            interval_minutes: self.interval_minutes as nat,
        }
    }
}

impl View for ScheduledTaskDestination {
    type V = (Seq<char>, Seq<char>, Seq<char>);

    open spec fn view(&self) -> (Seq<char>, Seq<char>, Seq<char>) {
        (self.path@, self.repository@, self.branch@)
    }
}

/// Whether a project task's file was approved as it is.
#[derive(Debug, Clone, Copy, PartialEq, Eq, Structural)]
pub enum ProjectTaskStatus {
    Pending,
    Current,
    Changed,
    Missing,
}

impl ProjectTaskStatus {
    pub fn text(self) -> (r: &'static str)
        ensures
            r@ == (match self {
                ProjectTaskStatus::Pending => "approval required"@,
                ProjectTaskStatus::Current => "current"@,
                ProjectTaskStatus::Changed => "changed; approval required"@,
                ProjectTaskStatus::Missing => "source missing"@,
            }),
    {
        match self {
            ProjectTaskStatus::Pending => "approval required",
            ProjectTaskStatus::Current => "current",
            ProjectTaskStatus::Changed => "changed; approval required",
            ProjectTaskStatus::Missing => "source missing",
        }
    }
}

/// Where a scheduled run stands.
#[derive(Debug, Clone, Copy, PartialEq, Eq, Structural)]
pub enum ScheduledRunStatus {
    Launching,
    Working,
    Blocked,
    Unknown,
    Completed,
    Failed,
}

/// The name a run status is stored under.
pub open spec fn status_text(s: ScheduledRunStatus) -> Seq<char> {
    match s {
        ScheduledRunStatus::Launching => "launching"@,
        ScheduledRunStatus::Working => "working"@,
        ScheduledRunStatus::Blocked => "blocked"@,
        ScheduledRunStatus::Unknown => "unknown"@,
        ScheduledRunStatus::Completed => "completed"@,
        ScheduledRunStatus::Failed => "failed"@,
    }
}

impl ScheduledRunStatus {
    pub fn text(self) -> (r: &'static str)
        ensures
            r@ == status_text(self),
    {
        match self {
            ScheduledRunStatus::Launching => "launching",
            ScheduledRunStatus::Working => "working",
            ScheduledRunStatus::Blocked => "blocked",
            ScheduledRunStatus::Unknown => "unknown",
            ScheduledRunStatus::Completed => "completed",
            ScheduledRunStatus::Failed => "failed",
        }
    }

    /// Whether the run may still change: it has not completed or failed.
    pub fn is_active(self) -> (r: bool)
        ensures
            r == !(self == ScheduledRunStatus::Completed || self == ScheduledRunStatus::Failed),
    {
        match self {
            ScheduledRunStatus::Launching
            | ScheduledRunStatus::Working
            | ScheduledRunStatus::Blocked
            | ScheduledRunStatus::Unknown => true,
            ScheduledRunStatus::Completed | ScheduledRunStatus::Failed => false,
        }
    }

    /// The status stored under `value`, if any.
    pub fn parse(value: &str) -> (r: Option<Self>)
        ensures
            r matches Some(s) ==> status_text(s) == value@,
            r is None ==> forall|s: ScheduledRunStatus| status_text(s) != value@,
    {
        proof {
            reveal_strlit("launching");
            reveal_strlit("working");
            reveal_strlit("blocked");
            reveal_strlit("unknown");
            reveal_strlit("completed");
            reveal_strlit("failed");
        }
        if str_eq(value, "launching") {
            Some(ScheduledRunStatus::Launching)
        } else if str_eq(value, "working") {
            Some(ScheduledRunStatus::Working)
        } else if str_eq(value, "blocked") {
            Some(ScheduledRunStatus::Blocked)
        } else if str_eq(value, "unknown") {
            Some(ScheduledRunStatus::Unknown)
        } else if str_eq(value, "completed") {
            Some(ScheduledRunStatus::Completed)
        } else if str_eq(value, "failed") {
            Some(ScheduledRunStatus::Failed)
        } else {
            None
        }
    }
}

/// Every status reads back as itself.
pub proof fn lemma_status_text_round_trip(s: ScheduledRunStatus, t: ScheduledRunStatus)
    ensures
        status_text(s) == status_text(t) ==> s == t,
{
    reveal_strlit("launching");
    reveal_strlit("working");
    reveal_strlit("blocked");
    reveal_strlit("unknown");
    reveal_strlit("completed");
    reveal_strlit("failed");
    if s != t {
        assert(status_text(s).len() != status_text(t).len() || status_text(s)[0] != status_text(t)[0]);
    }
}

/// One run of a scheduled task and the Herdr agent it runs in.
#[derive(Debug)]
pub struct ScheduledRun {
    pub id: i64,
    pub task_id: i64,
    pub created_at_ms: i64,
    pub status: ScheduledRunStatus,
    pub pane_id: Option<String>,
    pub terminal_id: Option<String>,
    pub session_id: Option<String>,
    pub error: Option<String>,
}

impl ScheduledRun {
    pub fn duplicate(&self) -> (r: Self)
        ensures
            r == *self,
    {
        ScheduledRun {
            id: self.id,
            task_id: self.task_id,
            created_at_ms: self.created_at_ms,
            status: self.status,
            pane_id: crate::agent::clone_opt_string(&self.pane_id),
            terminal_id: crate::agent::clone_opt_string(&self.terminal_id),
            session_id: crate::agent::clone_opt_string(&self.session_id),
            error: crate::agent::clone_opt_string(&self.error),
        }
    }
}

/// The run status an agent's status stands for.
pub open spec fn spec_agent_status(status: AgentStatus) -> ScheduledRunStatus {
    match status {
        AgentStatus::Idle | AgentStatus::Done => ScheduledRunStatus::Completed,
        AgentStatus::Working => ScheduledRunStatus::Working,
        AgentStatus::Blocked => ScheduledRunStatus::Blocked,
        AgentStatus::Unknown => ScheduledRunStatus::Unknown,
    }
}

pub fn agent_status(status: AgentStatus) -> (r: ScheduledRunStatus)
    ensures
        r == spec_agent_status(status),
{
    match status {
        AgentStatus::Idle | AgentStatus::Done => ScheduledRunStatus::Completed,
        AgentStatus::Working => ScheduledRunStatus::Working,
        AgentStatus::Blocked => ScheduledRunStatus::Blocked,
        AgentStatus::Unknown => ScheduledRunStatus::Unknown,
    }
}

/// The current time in milliseconds since the Unix epoch, saturated to `i64`.
pub fn now_ms() -> (r: i64)
    ensures
        r >= 0,
{
    let t = crate::session::unix_time_ms();
    if t > 0x7fff_ffff_ffff_ffff {
        0x7fff_ffff_ffff_ffff
    } else {
        t as i64
    }
}

/// The most bytes a Discord message of a run may take.
pub const DISCORD_MESSAGE_BYTES: u64 = 1900;

/// The most bytes of a task's title a Discord message shows.
pub const DISCORD_TITLE_BYTES: u64 = 160;

pub const DISCORD_TITLE_PREFIX: &'static str = "Hunkle scheduled task: ";

pub const DISCORD_TRUNCATED: &'static str = "\n\n[Result truncated by Hunkle]";

/// The first line of a run's Discord message, for a title cut to fit.
pub open spec fn discord_prefix(title: Seq<char>) -> Seq<char> {
    DISCORD_TITLE_PREFIX@ + title + "\n\n"@
}

/// The Discord message of a finished run: the title's words joined by single
/// spaces and cut at `DISCORD_TITLE_BYTES`, then the trimmed output, cut at a
/// character boundary and marked when the whole would not fit.
pub open spec fn is_discord_message(title: Seq<char>, output: Seq<char>, message: Seq<char>) -> bool {
    exists|kt: int, ko: int| #[trigger] discord_message_cut(title, output, message, kt, ko)
}

/// `message` is the Discord message when the title is cut after `kt`
/// characters and, if the output does not fit, the output after `ko`.
pub open spec fn discord_message_cut(title: Seq<char>, output: Seq<char>, message: Seq<char>, kt: int, ko: int) -> bool {
    let joined = join(words(title), " "@);
    let prefix = discord_prefix(joined.take(kt));
    let body = trim(output);
    &&& utf8_prefix_len(joined, DISCORD_TITLE_BYTES as nat, kt)
    &&& if utf8_len(prefix) + utf8_len(body) <= DISCORD_MESSAGE_BYTES {
        message == prefix + body
    } else {
        &&& utf8_len(prefix) + utf8_len(DISCORD_TRUNCATED@) <= DISCORD_MESSAGE_BYTES
        &&& utf8_prefix_len(
            body,
            (DISCORD_MESSAGE_BYTES - utf8_len(prefix) - utf8_len(DISCORD_TRUNCATED@)) as nat,
            ko,
        )
        &&& message == prefix + body.take(ko) + DISCORD_TRUNCATED@
    }
}

/// The message a finished run sends to Discord; it never takes more than
/// `DISCORD_MESSAGE_BYTES` bytes.
pub fn discord_message(title: &str, output: &str) -> (r: String)
    ensures
        is_discord_message(title@, output@, r@),
        utf8_len(r@) <= DISCORD_MESSAGE_BYTES,
{
    let parts = split_whitespace(&chars_of(title));
    let space = chars_of(" ");
    let joined = join_chars(&parts, &space);
    proof {
        assert(parts@.map_values(|p: Vec<char>| p@) =~= words(title@));
    }
    let cut = truncate_utf8(&joined, DISCORD_TITLE_BYTES);
    let mut prefix = String::from_str(DISCORD_TITLE_PREFIX);
    let cut_text = string_of(cut.as_slice());
    append_str(&mut prefix, cut_text.as_str());
    append_str(&mut prefix, "\n\n");
    let prefix_chars = chars_of(prefix.as_str());
    let suffix_chars = chars_of(DISCORD_TRUNCATED);
    proof {
        reveal_strlit("Hunkle scheduled task: ");
        reveal_strlit("\n\n");
        reveal_strlit("\n\n[Result truncated by Hunkle]");
        lemma_utf8_len_concat(DISCORD_TITLE_PREFIX@, cut@);
        lemma_utf8_len_concat(DISCORD_TITLE_PREFIX@ + cut@, "\n\n"@);
        lemma_utf8_len_bound(DISCORD_TITLE_PREFIX@);
        lemma_utf8_len_bound("\n\n"@);
        lemma_utf8_len_bound(DISCORD_TRUNCATED@);
    }
    let p = utf8_len_exec(&prefix_chars);
    let sfx = utf8_len_exec(&suffix_chars);
    let body = trim_chars(&chars_of(output));
    if utf8_fits(&body, DISCORD_MESSAGE_BYTES - p) {
        let body_text = string_of(body.as_slice());
        let mut message = prefix;
        append_str(&mut message, body_text.as_str());
        proof {
            lemma_utf8_len_concat(prefix_chars@, body@);
            let kt = choose|kt: int| utf8_prefix_len(joined@, DISCORD_TITLE_BYTES as nat, kt) && cut@ == joined@.take(kt);
            assert(discord_message_cut(title@, output@, message@, kt, 0));
        }
        return message;
    }
    let available = DISCORD_MESSAGE_BYTES - p - sfx;
    let kept = truncate_utf8(&body, available);
    let kept_text = string_of(kept.as_slice());
    let mut message = prefix;
    append_str(&mut message, kept_text.as_str());
    append_str(&mut message, DISCORD_TRUNCATED);
    proof {
        let ko = choose|ko: int| utf8_prefix_len(body@, available as nat, ko) && kept@ == body@.take(ko);
        lemma_utf8_len_concat(prefix_chars@, kept@);
        lemma_utf8_len_concat(prefix_chars@ + kept@, DISCORD_TRUNCATED@);
        let kt = choose|kt: int| utf8_prefix_len(joined@, DISCORD_TITLE_BYTES as nat, kt) && cut@ == joined@.take(kt);
        assert(message@ == discord_prefix(joined@.take(kt)) + body@.take(ko) + DISCORD_TRUNCATED@);
        assert(discord_message_cut(title@, output@, message@, kt, ko));
    }
    message
}

} // verus!
