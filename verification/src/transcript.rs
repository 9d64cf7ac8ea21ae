//! What an agent's OpenCode transcript shows: the user's messages and, for
//! each, the agent's requests with their text and activity.
use vstd::prelude::*;
use crate::agent::str_eq;
use crate::text::{append_str, chars_of, is_ascii_alphanumeric, char_is_ascii_alphanumeric, push_char};

verus! {

/// An activity of the agent while it answers.
#[derive(Debug, PartialEq, Eq)]
pub enum AgentActivityPreview {
    Reasoning,
    Tool { name: String, title: Option<String>, running: bool },
}

pub enum ActivityView {
    Reasoning,
    Tool { name: Seq<char>, title: Option<Seq<char>>, running: bool },
}

impl View for AgentActivityPreview {
    type V = ActivityView;

    open spec fn view(&self) -> ActivityView {
        match self {
            AgentActivityPreview::Reasoning => ActivityView::Reasoning,
            AgentActivityPreview::Tool { name, title, running } => ActivityView::Tool {
                name: name@,
                title: match title {
                    Some(t) => Some(t@),
                    None => None,
                },
                running: *running,
            },
        }
    }
}

/// A part of a request: text, or an activity.
#[derive(Debug, PartialEq, Eq)]
pub enum AgentRequestPartPreview {
    Text(String),
    Activity(AgentActivityPreview),
}

pub enum PartView {
    Text(Seq<char>),
    Activity(ActivityView),
}

impl View for AgentRequestPartPreview {
    type V = PartView;

    open spec fn view(&self) -> PartView {
        match self {
            AgentRequestPartPreview::Text(t) => PartView::Text(t@),
            AgentRequestPartPreview::Activity(a) => PartView::Activity(a@),
        }
    }
}

/// One request the agent made while answering a message.
#[derive(Debug)]
pub struct AgentRequestPreview {
    pub parts: Vec<AgentRequestPartPreview>,
    pub reasoning_active: bool,
    pub duration_ms: Option<u64>,
    pub reasoning_duration_ms: Option<u64>,
    pub tool_call_count: u64,
}

pub struct RequestView {
    pub parts: Seq<PartView>,
    pub reasoning_active: bool,
    pub duration_ms: Option<u64>,
    pub reasoning_duration_ms: Option<u64>,
    pub tool_call_count: u64,
}

impl View for AgentRequestPreview {
    type V = RequestView;

    open spec fn view(&self) -> RequestView {
        RequestView {
            parts: self.parts@.map_values(|p: AgentRequestPartPreview| p@),
            reasoning_active: self.reasoning_active,
            duration_ms: self.duration_ms,
            reasoning_duration_ms: self.reasoning_duration_ms,
            tool_call_count: self.tool_call_count,
        }
    }
}

/// A message of the user and the requests the agent made to answer it.
#[derive(Debug)]
pub struct AgentUserMessage {
    pub text: String,
    pub requests: Vec<AgentRequestPreview>,
}

pub struct MessageView {
    pub text: Seq<char>,
    pub requests: Seq<RequestView>,
}

impl View for AgentUserMessage {
    type V = MessageView;

    open spec fn view(&self) -> MessageView {
        MessageView {
            text: self.text@,
            requests: self.requests@.map_values(|r: AgentRequestPreview| r@),
        }
    }
}

/// The messages of a transcript, by value.
pub open spec fn messages_view(m: Seq<AgentUserMessage>) -> Seq<MessageView> {
    m.map_values(|x: AgentUserMessage| x@)
}

fn same_opt_text(a: &Option<String>, b: &Option<String>) -> (r: bool)
    ensures
        r == (match (a, b) {
            (Some(x), Some(y)) => x@ == y@,
            (None, None) => true,
            _ => false,
        }),
{
    match (a, b) {
        (Some(x), Some(y)) => *x == *y,
        (None, None) => true,
        _ => false,
    }
}

fn same_part(a: &AgentRequestPartPreview, b: &AgentRequestPartPreview) -> (r: bool)
    ensures
        r == (a@ == b@),
{
    match (a, b) {
        (AgentRequestPartPreview::Text(x), AgentRequestPartPreview::Text(y)) => *x == *y,
        (
            AgentRequestPartPreview::Activity(AgentActivityPreview::Reasoning),
            AgentRequestPartPreview::Activity(AgentActivityPreview::Reasoning),
        ) => true,
        (
            AgentRequestPartPreview::Activity(
                AgentActivityPreview::Tool { name: n1, title: t1, running: r1 },
            ),
            AgentRequestPartPreview::Activity(
                AgentActivityPreview::Tool { name: n2, title: t2, running: r2 },
            ),
        ) => *n1 == *n2 && same_opt_text(t1, t2) && *r1 == *r2,
        _ => false,
    }
}

fn same_request(a: &AgentRequestPreview, b: &AgentRequestPreview) -> (r: bool)
    ensures
        r == (a@ == b@),
{
    if a.reasoning_active != b.reasoning_active || a.duration_ms != b.duration_ms
        || a.reasoning_duration_ms != b.reasoning_duration_ms || a.tool_call_count
        != b.tool_call_count || a.parts.len() != b.parts.len() {
        proof {
            if a@ == b@ {
                assert(a@.parts.len() == b@.parts.len());
            }
        }
        return false;
    }
    let mut i: usize = 0;
    while i < a.parts.len()
        invariant
            i <= a.parts.len(),
            a.parts.len() == b.parts.len(),
            forall|j: int| 0 <= j < i ==> a.parts@[j]@ == b.parts@[j]@,
        decreases a.parts.len() - i,
    {
        if !same_part(&a.parts[i], &b.parts[i]) {
            proof {
                if a@ == b@ {
                    assert(a@.parts[i as int] == b@.parts[i as int]);
                }
            }
            return false;
        }
        i = i + 1;
    }
    assert(a@.parts =~= b@.parts);
    true
}

fn same_message(a: &AgentUserMessage, b: &AgentUserMessage) -> (r: bool)
    ensures
        r == (a@ == b@),
{
    if a.text != b.text || a.requests.len() != b.requests.len() {
        proof {
            if a@ == b@ {
                assert(a@.requests.len() == b@.requests.len());
            }
        }
        return false;
    }
    let mut i: usize = 0;
    while i < a.requests.len()
        invariant
            i <= a.requests.len(),
            a.requests.len() == b.requests.len(),
            forall|j: int| 0 <= j < i ==> a.requests@[j]@ == b.requests@[j]@,
        decreases a.requests.len() - i,
    {
        if !same_request(&a.requests[i], &b.requests[i]) {
            proof {
                if a@ == b@ {
                    assert(a@.requests[i as int] == b@.requests[i as int]);
                }
            }
            return false;
        }
        i = i + 1;
    }
    assert(a@.requests =~= b@.requests);
    true
}

/// Whether two transcripts hold the same messages.
pub fn same_messages(a: &Vec<AgentUserMessage>, b: &Vec<AgentUserMessage>) -> (r: bool)
    ensures
        r == (messages_view(a@) == messages_view(b@)),
{
    if a.len() != b.len() {
        proof {
            if messages_view(a@) == messages_view(b@) {
                assert(messages_view(a@).len() == messages_view(b@).len());
            }
        }
        return false;
    }
    let mut i: usize = 0;
    while i < a.len()
        invariant
            i <= a.len(),
            a.len() == b.len(),
            forall|j: int| 0 <= j < i ==> a@[j]@ == b@[j]@,
        decreases a.len() - i,
    {
        if !same_message(&a[i], &b[i]) {
            proof {
                if messages_view(a@) == messages_view(b@) {
                    assert(messages_view(a@)[i as int] == messages_view(b@)[i as int]);
                }
            }
            return false;
        }
        i = i + 1;
    }
    assert(messages_view(a@) =~= messages_view(b@));
    true
}

/// Whether the agent has produced nothing yet for the message: none of its
/// requests has a part.
pub open spec fn spec_waiting_for_agent_output(m: MessageView) -> bool {
    forall|i: int| 0 <= i < m.requests.len() ==> (#[trigger] m.requests[i]).parts.len() == 0
}

pub fn waiting_for_agent_output(message: &AgentUserMessage) -> (r: bool)
    ensures
        r == spec_waiting_for_agent_output(message@),
{
    let mut i: usize = 0;
    while i < message.requests.len()
        invariant
            i <= message.requests.len(),
            forall|j: int| 0 <= j < i ==> (#[trigger] message@.requests[j]).parts.len() == 0,
        decreases message.requests.len() - i,
    {
        if message.requests[i].parts.len() != 0 {
            assert(message@.requests[i as int].parts.len() != 0);
            return false;
        }
        i = i + 1;
    }
    true
}

/// Whether a character may appear in an OpenCode session id given to a query.
pub open spec fn query_id_char(c: char) -> bool {
    is_ascii_alphanumeric(c) || c == '_' || c == '-'
}

/// Refuses a session id with other characters than ASCII letters, digits,
/// `_` and `-`; the empty id passes.
pub fn validate_session_id(session_id: &str) -> (r: Result<(), String>)
    ensures
        (forall|i: int| 0 <= i < session_id@.len() ==> query_id_char(#[trigger] session_id@[i]))
            ==> r is Ok,
        !(forall|i: int| 0 <= i < session_id@.len() ==> query_id_char(#[trigger] session_id@[i]))
            ==> (r matches Err(e) && e@ == "OpenCode session ID contains unsupported characters"@),
{
    let chars = chars_of(session_id);
    let mut i: usize = 0;
    while i < chars.len()
        invariant
            i <= chars.len(),
            chars@ == session_id@,
            forall|j: int| 0 <= j < i ==> query_id_char(#[trigger] chars@[j]),
        decreases chars.len() - i,
    {
        let c = chars[i];
        if !(char_is_ascii_alphanumeric(c) || c == '_' || c == '-') {
            assert(!query_id_char(session_id@[i as int]));
            return Err(String::from_str("OpenCode session ID contains unsupported characters"));
        }
        i = i + 1;
    }
    Ok(())
}

/// `s` with each `'` doubled.
pub open spec fn doubled_quotes(s: Seq<char>) -> Seq<char>
    decreases s.len(),
{
    if s.len() == 0 {
        seq![]
    } else {
        doubled_quotes(s.drop_last()) + (if s.last() == '\'' {
            seq!['\'', '\'']
        } else {
            seq![s.last()]
        })
    }
}

/// A SQL string literal holding `value`.
pub fn sql_string(value: &str) -> (r: String)
    ensures
        r@ == seq!['\''] + doubled_quotes(value@) + seq!['\''],
{
    let chars = chars_of(value);
    let mut out = String::from_str("'");
    proof {
        reveal_strlit("'");
    }
    let mut i: usize = 0;
    while i < chars.len()
        invariant
            i <= chars.len(),
            out@ == seq!['\''] + doubled_quotes(chars@.take(i as int)),
        decreases chars.len() - i,
    {
        assert(chars@.take(i + 1).drop_last() =~= chars@.take(i as int));
        let c = chars[i];
        if c == '\'' {
            push_char(&mut out, '\'');
            push_char(&mut out, '\'');
        } else {
            push_char(&mut out, c);
        }
        assert(out@ =~= seq!['\''] + doubled_quotes(chars@.take(i + 1)));
        i = i + 1;
    }
    assert(chars@.take(chars.len() as int) =~= chars@);
    push_char(&mut out, '\'');
    out
}

} // verus!
