//! The parts of the Herdr client that decide without talking to Herdr: event
//! replay, the environment Hunkle runs in, command errors, and the names and
//! commands given to scheduled agents.
use vstd::prelude::*;
use crate::agent::AgentStatus;
use crate::text::{
    append_str, ascii_lower, char_is_ascii_alphanumeric, char_to_ascii_lowercase, chars_of,
    decimal, is_ascii_alphanumeric, push_char, string_of, trim, trim_chars, u64_decimal,
};

verus! {

/// A change of an agent's status that Herdr announced.
#[derive(Debug, PartialEq, Eq)]
pub struct AgentStatusEvent {
    pub workspace_id: String,
    pub pane_id: String,
    pub status: AgentStatus,
}

/// An event of Herdr's event stream.
#[derive(Debug, PartialEq, Eq)]
pub enum Event {
    AgentStatus(AgentStatusEvent),
}

/// Drops the events Herdr replays when a subscription starts, and forwards
/// the live ones after it.
pub struct EventCoalescer {
    pub replaying: bool,
}

impl EventCoalescer {
    pub fn new() -> (r: Self)
        ensures
            r.replaying,
    {
        EventCoalescer { replaying: true }
    }

    /// The event to forward, if it is live.
    pub fn observe(&mut self, event: Event) -> (r: Option<Event>)
        ensures
            final(self).replaying == old(self).replaying,
            old(self).replaying ==> r is None,
            !old(self).replaying ==> r == Some(event),
    {
        if self.replaying {
            None
        } else {
            Some(event)
        }
    }

    /// Marks the end of the replay: every later event is live.
    pub fn finish_replay(&mut self)
        ensures
            !final(self).replaying,
    {
        self.replaying = false;
    }
}

/// Where Hunkle runs inside Herdr.
#[derive(Debug)]
pub struct Environment {
    pub workspace_id: Option<String>,
    pub tab_id: Option<String>,
    pub pane_id: Option<String>,
}

/// The environment, when Herdr marked Hunkle's process with `HERDR_ENV=1`.
pub fn environment_from(
    enabled: Option<&str>,
    workspace_id: Option<String>,
    tab_id: Option<String>,
    pane_id: Option<String>,
) -> (r: Option<Environment>)
    ensures
        r is Some <==> (enabled matches Some(e) && e@ == "1"@),
        r matches Some(env) ==> env.workspace_id == workspace_id && env.tab_id == tab_id
            && env.pane_id == pane_id,
{
    let on = match enabled {
        Some(e) => crate::agent::str_eq(e, "1"),
        None => false,
    };
    if on {
        Some(Environment { workspace_id, tab_id, pane_id })
    } else {
        None
    }
}

/// A failed Herdr command: Herdr's error code, if it gave one, and the message.
#[derive(Debug)]
pub struct CommandError {
    pub code: Option<String>,
    pub message: String,
}

impl CommandError {
    /// An error that Herdr gave no code for.
    pub fn unavailable(message: String) -> (r: Self)
        ensures
            r.code is None,
            r.message == message,
    {
        CommandError { code: None, message }
    }
}

/// The character a title character becomes in an agent name.
pub open spec fn name_char(c: char) -> char {
    if is_ascii_alphanumeric(c) {
        ascii_lower(c)
    } else if c == '-' || c == '_' {
        c
    } else {
        '-'
    }
}

/// The most characters taken from a title into an agent name.
pub const NAME_SUFFIX_LEN: usize = 25;

/// The name characters of a title, with runs of `-` collapsed, until the
/// name holds `NAME_SUFFIX_LEN` characters.
pub open spec fn name_suffix(s: Seq<char>) -> Seq<char>
    decreases s.len(),
{
    if s.len() == 0 {
        seq![]
    } else {
        let p = name_suffix(s.drop_last());
        let c = name_char(s.last());
        if p.len() == NAME_SUFFIX_LEN {
            p
        } else if c != '-' || p.len() == 0 || p.last() != '-' {
            p.push(c)
        } else {
            p
        }
    }
}

/// `s` without leading and trailing `-`.
pub open spec fn trim_dashes(s: Seq<char>) -> Seq<char> {
    trim_dashes_end(trim_dashes_start(s))
}

pub open spec fn trim_dashes_start(s: Seq<char>) -> Seq<char>
    decreases s.len(),
{
    if s.len() > 0 && s[0] == '-' {
        trim_dashes_start(s.drop_first())
    } else {
        s
    }
}

pub open spec fn trim_dashes_end(s: Seq<char>) -> Seq<char>
    decreases s.len(),
{
    if s.len() > 0 && s.last() == '-' {
        trim_dashes_end(s.drop_last())
    } else {
        s
    }
}

/// The agent name Herdr shows for a scheduled task titled `value`.
pub open spec fn spec_scheduler_agent_name(value: Seq<char>) -> Seq<char> {
    let suffix = trim_dashes(name_suffix(value));
    if suffix.len() == 0 {
        "hunkle-scheduled"@
    } else {
        "hunkle-"@ + suffix
    }
}

/// A character an agent name may hold: a lower-case ASCII letter, a digit,
/// `-` or `_`.
pub open spec fn name_ok(c: char) -> bool {
    let n = c as u32;
    (0x30 <= n <= 0x39) || (0x61 <= n <= 0x7a) || n == 0x2d || n == 0x5f
}

/// Two `-` follow each other at `i`.
pub open spec fn dash_pair(s: Seq<char>, i: int) -> bool {
    s[i] == '-' && s[i + 1] == '-'
}

/// Name characters only, with no run of `-`.
pub open spec fn clean_name_part(s: Seq<char>) -> bool {
    &&& forall|i: int| 0 <= i < s.len() ==> name_ok(#[trigger] s[i])
    &&& forall|i: int| 0 <= i && i + 1 < s.len() ==> !#[trigger] dash_pair(s, i)
}

proof fn lemma_name_char_ok(c: char)
    ensures
        name_ok(name_char(c)),
{
    let n = c as u32;
    if 0x41 <= n <= 0x5a {
        assert(((n + 32) as u32) as char as u32 == n + 32);
    }
}

proof fn lemma_name_suffix_clean(s: Seq<char>)
    ensures
        clean_name_part(name_suffix(s)),
        name_suffix(s).len() <= NAME_SUFFIX_LEN,
    decreases s.len(),
{
    if s.len() > 0 {
        lemma_name_suffix_clean(s.drop_last());
        lemma_name_char_ok(s.last());
        let p = name_suffix(s.drop_last());
        let q = name_suffix(s);
        assert forall|i: int| 0 <= i < q.len() implies name_ok(#[trigger] q[i]) by {
            if i < p.len() {
                assert(q[i] == p[i]);
            }
        }
        assert forall|i: int| 0 <= i && i + 1 < q.len() implies !#[trigger] dash_pair(q, i) by {
            if i + 1 < p.len() {
                assert(q[i] == p[i] && q[i + 1] == p[i + 1]);
                assert(!dash_pair(p, i));
            }
        }
    }
}

proof fn lemma_trim_start_clean(s: Seq<char>)
    requires
        clean_name_part(s),
    ensures
        clean_name_part(trim_dashes_start(s)),
        trim_dashes_start(s).len() <= s.len(),
        trim_dashes_start(s).len() > 0 ==> trim_dashes_start(s)[0] != '-',
    decreases s.len(),
{
    if s.len() > 0 && s[0] == '-' {
        let t = s.drop_first();
        assert forall|i: int| 0 <= i < t.len() implies name_ok(#[trigger] t[i]) by {
            assert(t[i] == s[i + 1]);
        }
        assert forall|i: int| 0 <= i && i + 1 < t.len() implies !#[trigger] dash_pair(t, i) by {
            assert(t[i] == s[i + 1] && t[i + 1] == s[i + 2]);
            assert(!dash_pair(s, i + 1));
        }
        lemma_trim_start_clean(t);
    }
}

proof fn lemma_trim_end_prefix(s: Seq<char>)
    ensures
        trim_dashes_end(s).len() <= s.len(),
        trim_dashes_end(s) == s.take(trim_dashes_end(s).len() as int),
        trim_dashes_end(s).len() > 0 ==> trim_dashes_end(s).last() != '-',
    decreases s.len(),
{
    if s.len() > 0 && s.last() == '-' {
        lemma_trim_end_prefix(s.drop_last());
        let t = trim_dashes_end(s.drop_last());
        assert(s.drop_last().take(t.len() as int) =~= s.take(t.len() as int));
    } else {
        assert(s.take(s.len() as int) =~= s);
    }
}

/// An agent name of a scheduled task is `hunkle-scheduled`, or `hunkle-`
/// and at most 25 lower-case letters, digits, `-` and `_`, with no run of
/// `-` and none at either end; so it is at most 32 characters long.
pub proof fn lemma_scheduler_agent_name_shape(value: Seq<char>)
    ensures
        ({
            let suffix = trim_dashes(name_suffix(value));
            &&& suffix.len() == 0 ==> spec_scheduler_agent_name(value) == "hunkle-scheduled"@
            &&& suffix.len() > 0 ==> {
                &&& spec_scheduler_agent_name(value) == "hunkle-"@ + suffix
                &&& suffix.len() <= NAME_SUFFIX_LEN
                &&& clean_name_part(suffix)
                &&& suffix[0] != '-'
                &&& suffix.last() != '-'
            }
        }),
        spec_scheduler_agent_name(value).len() <= 32,
{
    reveal_strlit("hunkle-scheduled");
    reveal_strlit("hunkle-");
    let p = name_suffix(value);
    lemma_name_suffix_clean(value);
    lemma_trim_start_clean(p);
    let t = trim_dashes_start(p);
    lemma_trim_end_prefix(t);
    let u = trim_dashes_end(t);
    assert forall|i: int| 0 <= i < u.len() implies name_ok(#[trigger] u[i]) by {
        assert(u[i] == t[i]);
    }
    assert forall|i: int| 0 <= i && i + 1 < u.len() implies !#[trigger] dash_pair(u, i) by {
        assert(u[i] == t[i] && u[i + 1] == t[i + 1]);
        assert(!dash_pair(t, i));
    }
    if u.len() > 0 {
        assert(u[0] == t[0]);
    }
}

/// The agent name for a scheduled task titled `value`.
pub fn scheduler_agent_name(value: &str) -> (r: String)
    ensures
        r@ == spec_scheduler_agent_name(value@),
{
    let chars = chars_of(value);
    let mut suffix: Vec<char> = Vec::new();
    let mut i: usize = 0;
    while i < chars.len()
        invariant
            i <= chars.len(),
            chars@ == value@,
            suffix@ == name_suffix(chars@.take(i as int)),
            suffix@.len() <= NAME_SUFFIX_LEN,
        decreases chars.len() - i,
    {
        assert(chars@.take(i + 1).drop_last() =~= chars@.take(i as int));
        let c = chars[i];
        let mapped = if char_is_ascii_alphanumeric(c) {
            char_to_ascii_lowercase(c)
        } else if c == '-' || c == '_' {
            c
        } else {
            '-'
        };
        if suffix.len() == NAME_SUFFIX_LEN {
            proof {
                lemma_suffix_full_stays(chars@, i as int);
            }
            assert(name_suffix(chars@) == suffix@);
            return finish_agent_name(suffix, Ghost(chars@));
        }
        if mapped != '-' || suffix.len() == 0 || suffix[suffix.len() - 1] != '-' {
            suffix.push(mapped);
        }
        i = i + 1;
    }
    assert(chars@.take(chars.len() as int) =~= chars@);
    finish_agent_name(suffix, Ghost(chars@))
}

proof fn lemma_suffix_full_stays(s: Seq<char>, i: int)
    requires
        0 <= i < s.len(),
        name_suffix(s.take(i)).len() == NAME_SUFFIX_LEN,
    ensures
        name_suffix(s) == name_suffix(s.take(i)),
    decreases s.len() - i,
{
    assert(s.take(i + 1).drop_last() =~= s.take(i));
    if i + 1 < s.len() {
        lemma_suffix_full_stays(s, i + 1);
    } else {
        assert(s.take(i + 1) =~= s);
    }
}

fn finish_agent_name(suffix: Vec<char>, Ghost(value): Ghost<Seq<char>>) -> (r: String)
    requires
        suffix@ == name_suffix(value),
    ensures
        r@ == spec_scheduler_agent_name(value),
{
    let mut start: usize = 0;
    assert(suffix@.skip(0) =~= suffix@);
    while start < suffix.len() && suffix[start] == '-'
        invariant
            start <= suffix.len(),
            trim_dashes_start(suffix@) == trim_dashes_start(suffix@.skip(start as int)),
        decreases suffix.len() - start,
    {
        proof {
            let t = suffix@.skip(start as int);
            assert(t[0] == '-');
            assert(t.drop_first() =~= suffix@.skip(start + 1));
        }
        start = start + 1;
    }
    let ghost tail = suffix@.skip(start as int);
    assert(trim_dashes_start(tail) == tail);
    let mut end: usize = suffix.len();
    while end > start && suffix[end - 1] == '-'
        invariant
            start <= end <= suffix.len(),
            trim_dashes_end(tail) == trim_dashes_end(suffix@.subrange(start as int, end as int)),
        decreases end - start,
    {
        proof {
            let u = suffix@.subrange(start as int, end as int);
            assert(u.last() == '-');
            assert(u.drop_last() =~= suffix@.subrange(start as int, end - 1));
        }
        end = end - 1;
    }
    proof {
        assert(tail =~= suffix@.subrange(start as int, suffix.len() as int));
        let u = suffix@.subrange(start as int, end as int);
        if u.len() > 0 {
            assert(u.last() == suffix@[end - 1]);
        }
        assert(trim_dashes_end(u) == u);
    }
    let mut trimmed: Vec<char> = Vec::new();
    let mut k: usize = start;
    while k < end
        invariant
            start <= k <= end <= suffix.len(),
            trimmed@ == suffix@.subrange(start as int, k as int),
        decreases end - k,
    {
        trimmed.push(suffix[k]);
        assert(trimmed@ =~= suffix@.subrange(start as int, k + 1));
        k = k + 1;
    }
    if trimmed.len() == 0 {
        String::from_str("hunkle-scheduled")
    } else {
        let mut name = String::from_str("hunkle-");
        let t = string_of(trimmed.as_slice());
        append_str(&mut name, t.as_str());
        name
    }
}

/// The decimal text of a signed integer, as `i64::to_string` writes it.
pub open spec fn signed_decimal(n: int) -> Seq<char> {
    if n < 0 {
        seq!['-'] + decimal((-n) as nat)
    } else {
        decimal(n as nat)
    }
}

/// Writes `n` in decimal.
pub fn i64_decimal(n: i64) -> (r: String)
    ensures
        r@ == signed_decimal(n as int),
{
    if n < 0 {
        let magnitude: u64 = ((-(n + 1)) as u64) + 1;
        let mut r = String::from_str("-");
        let digits = u64_decimal(magnitude);
        append_str(&mut r, digits.as_str());
        proof {
            reveal_strlit("-");
        }
        r
    } else {
        u64_decimal(n as u64)
    }
}

/// The longest agent name Herdr keeps for a scheduled run.
pub const RUN_AGENT_NAME_LEN: usize = 32;

/// The agent name of run `run_id` of a task titled `value`: the task's agent
/// name, cut so that `-r` and the run id still fit.
pub open spec fn spec_scheduler_run_agent_name(value: Seq<char>, run_id: int) -> Seq<char> {
    let suffix = "-r"@ + signed_decimal(run_id);
    let name = spec_scheduler_agent_name(value);
    let keep: int = if suffix.len() >= RUN_AGENT_NAME_LEN {
        0
    } else {
        RUN_AGENT_NAME_LEN - suffix.len()
    };
    (if name.len() <= keep {
        name
    } else {
        name.take(keep)
    }) + suffix
}

/// The agent name of one run of a scheduled task.
pub fn scheduler_run_agent_name(value: &str, run_id: i64) -> (r: String)
    ensures
        r@ == spec_scheduler_run_agent_name(value@, run_id as int),
{
    let mut suffix = String::from_str("-r");
    let digits = i64_decimal(run_id);
    append_str(&mut suffix, digits.as_str());
    let suffix_chars = chars_of(suffix.as_str());
    let name = scheduler_agent_name(value);
    let name_chars = chars_of(name.as_str());
    let keep: usize = if suffix_chars.len() >= RUN_AGENT_NAME_LEN {
        0
    } else {
        RUN_AGENT_NAME_LEN - suffix_chars.len()
    };
    let mut out: Vec<char> = Vec::new();
    let mut i: usize = 0;
    while i < name_chars.len() && i < keep
        invariant
            i <= name_chars.len(),
            i <= keep,
            out@ == name_chars@.take(i as int),
        decreases name_chars.len() - i,
    {
        out.push(name_chars[i]);
        assert(out@ =~= name_chars@.take(i + 1));
        i = i + 1;
    }
    if name_chars.len() <= keep {
        assert(name_chars@.take(name_chars.len() as int) =~= name_chars@);
    }
    let mut r = string_of(out.as_slice());
    append_str(&mut r, suffix.as_str());
    proof {
        reveal_strlit("-r");
    }
    r
}

/// Whether a character may appear in an OpenCode session id.
pub open spec fn session_id_char(c: char) -> bool {
    is_ascii_alphanumeric(c) || c == '_' || c == '-'
}

/// The command that starts OpenCode, resuming `session_id` when given; an
/// empty id or one with other characters than letters, digits, `_` and `-`
/// is refused.
pub fn opencode_command(session_id: Option<&str>) -> (r: Result<String, String>)
    ensures
        match session_id {
            None => r matches Ok(c) && c@ == "opencode"@,
            Some(s) => if s@.len() > 0 && forall|i: int| 0 <= i < s@.len() ==> session_id_char(
                #[trigger] s@[i],
            ) {
                r matches Ok(c) && c@ == "opencode --session "@ + s@
            } else {
                r matches Err(e) && e@ == "OpenCode reported an invalid session ID"@
            },
        },
{
    let mut command = String::from_str("opencode");
    proof {
        reveal_strlit("opencode");
        reveal_strlit(" --session ");
        reveal_strlit("opencode --session ");
    }
    if let Some(session_id) = session_id {
        let chars = chars_of(session_id);
        let mut valid = chars.len() > 0;
        let mut i: usize = 0;
        while i < chars.len()
            invariant
                i <= chars.len(),
                valid == (chars@.len() > 0 && forall|k: int| 0 <= k < i ==> session_id_char(
                    #[trigger] chars@[k],
                )),
            decreases chars.len() - i,
        {
            let c = chars[i];
            if !(char_is_ascii_alphanumeric(c) || c == '_' || c == '-') {
                valid = false;
            }
            i = i + 1;
        }
        if !valid {
            return Err(String::from_str("OpenCode reported an invalid session ID"));
        }
        append_str(&mut command, " --session ");
        append_str(&mut command, session_id);
    }
    Ok(command)
}

/// The first line of `text` that is not blank, trimmed.
pub open spec fn first_detail(s: Seq<char>) -> Option<Seq<char>>
    decreases s.len(),
{
    let e = newline_index(s);
    proof {
        lemma_newline_index_bounds(s);
    }
    let line = s.take(e);
    if trim(line).len() > 0 {
        Some(trim(line))
    } else if e < s.len() {
        first_detail(s.skip(e + 1))
    } else {
        None
    }
}

/// The index of the first `\n` of `s`, or its length.
pub open spec fn newline_index(s: Seq<char>) -> int
    decreases s.len(),
{
    if s.len() == 0 {
        0
    } else if s[0] == '\n' {
        0
    } else {
        1 + newline_index(s.drop_first())
    }
}

pub proof fn lemma_newline_index_bounds(s: Seq<char>)
    ensures
        0 <= newline_index(s) <= s.len(),
    decreases s.len(),
{
    if s.len() > 0 && s[0] != '\n' {
        lemma_newline_index_bounds(s.drop_first());
    }
}

pub proof fn lemma_newline_index(s: Seq<char>, i: int)
    requires
        0 <= i <= s.len(),
        forall|k: int| 0 <= k < i ==> #[trigger] s[k] != '\n',
        i == s.len() || s[i] == '\n',
    ensures
        newline_index(s) == i,
    decreases i,
{
    if i > 0 {
        assert forall|k: int| 0 <= k < i - 1 implies #[trigger] s.drop_first()[k] != '\n' by {
            assert(s.drop_first()[k] == s[k + 1]);
        }
        lemma_newline_index(s.drop_first(), i - 1);
    }
}

/// The first non-blank line of a command's error output, trimmed.
pub fn first_detail_line(text: &str) -> (r: Option<String>)
    ensures
        match first_detail(text@) {
            Some(d) => r matches Some(x) && x@ == d,
            None => r is None,
        },
{
    let chars = chars_of(text);
    let mut start: usize = 0;
    assert(chars@.skip(0) =~= chars@);
    while start <= chars.len()
        invariant
            start <= chars.len() + 1,
            chars@ == text@,
            start <= chars.len() ==> first_detail(chars@) == first_detail(chars@.skip(start as int)),
            start > chars.len() ==> first_detail(chars@) is None,
        decreases chars.len() + 1 - start,
    {
        let ghost rest = chars@.skip(start as int);
        let mut end: usize = start;
        while end < chars.len() && chars[end] != '\n'
            invariant
                start <= end <= chars.len(),
                forall|k: int| start <= k < end ==> #[trigger] chars@[k] != '\n',
            decreases chars.len() - end,
        {
            end = end + 1;
        }
        proof {
            assert forall|k: int| 0 <= k < end - start implies #[trigger] rest[k] != '\n' by {
                assert(rest[k] == chars@[start + k]);
            }
            if end < chars.len() {
                assert(rest[end - start] == chars@[end as int]);
            }
            lemma_newline_index(rest, end - start);
            assert(rest.take(end - start) =~= chars@.subrange(start as int, end as int));
        }
        let mut line: Vec<char> = Vec::new();
        let mut k: usize = start;
        while k < end
            invariant
                start <= k <= end <= chars.len(),
                line@ == chars@.subrange(start as int, k as int),
            decreases end - k,
        {
            line.push(chars[k]);
            assert(line@ =~= chars@.subrange(start as int, k + 1));
            k = k + 1;
        }
        let trimmed = trim_chars(&line);
        if trimmed.len() > 0 {
            return Some(string_of(trimmed.as_slice()));
        }
        if end == chars.len() {
            return None;
        }
        assert(rest.skip(end - start + 1) =~= chars@.skip(end + 1));
        start = end + 1;
    }
    None
}

/// Decodes bytes as UTF-8, replacing invalid sequences (`String::from_utf8_lossy`).
pub uninterp spec fn utf8_lossy(bytes: Seq<u8>) -> Seq<char>;

#[verifier::external_body]
fn lossy_text(bytes: &[u8]) -> (r: String)
    ensures
        r@ == utf8_lossy(bytes@),
{
    String::from_utf8_lossy(bytes).into_owned()
}

/// The first non-blank line of Herdr's error output, trimmed.
pub fn stderr_detail(stderr: &[u8]) -> (r: Option<String>)
    ensures
        match first_detail(utf8_lossy(stderr@)) {
            Some(d) => r matches Some(x) && x@ == d,
            None => r is None,
        },
{
    let text = lossy_text(stderr);
    first_detail_line(text.as_str())
}

} // verus!
