//! The rows of OpenCode's transcript query and the messages they make: each
//! row is one text part of a user message joined with one of the answers.
use vstd::prelude::*;
use crate::json::{as_items, as_unsigned, field, get, items, text_field, text_member, unsigned, Json};
use crate::agent::str_eq;
use crate::snapshot::opt_text;
use crate::text::{
    append_str, chars_of, join, join_chars, split_whitespace, string_of, trim, trim_chars, words,
};
use crate::client::{i64_decimal, signed_decimal};
use crate::transcript::{
    doubled_quotes, sql_string, spec_waiting_for_agent_output, waiting_for_agent_output, ActivityView, AgentActivityPreview,
    AgentRequestPartPreview, AgentRequestPreview, AgentUserMessage, MessageView, PartView, RequestView,
};

verus! {

/// One row of the transcript query. The response's parts are the JSON its
/// text held, if it held any.
#[derive(Debug)]
pub struct TranscriptRow {
    pub message_id: Option<String>,
    pub user_part_id: Option<String>,
    pub text: Option<String>,
    pub response_id: Option<String>,
    pub response_started_at: Option<u64>,
    pub response_completed_at: Option<u64>,
    pub response_parts: Option<Json>,
}

/// The parts of a response, when they form an array.
pub open spec fn part_list(row: TranscriptRow) -> Option<Seq<Json>> {
    match row.response_parts {
        Some(Json::Array(v)) => Some(v@),
        _ => None,
    }
}

/// The time a reasoning part took, when it is a reasoning part with a
/// start: until its end, else until `now_ms`.
pub open spec fn reasoning_span(p: Json, now_ms: u64) -> Option<u64> {
    if text_field(p, "type"@) == Some("reasoning"@) {
        match unsigned(field(p, "started_at"@)) {
            Some(start) => {
                let end = match unsigned(field(p, "completed_at"@)) {
                    Some(e) => e,
                    None => now_ms,
                };
                Some(end.saturating_sub(start))
            },
            None => None,
        }
    } else {
        None
    }
}

/// Whether some reasoning part has a start, and the saturated sum of their spans.
pub open spec fn reasoning_fold(ps: Seq<Json>, now_ms: u64) -> (bool, u64)
    decreases ps.len(),
{
    if ps.len() == 0 {
        (false, 0)
    } else {
        let (found, total) = reasoning_fold(ps.drop_last(), now_ms);
        match reasoning_span(ps.last(), now_ms) {
            Some(d) => (true, total.saturating_add(d)),
            None => (found, total),
        }
    }
}

/// The preview of a response part, given whether a reasoning part came
/// before: trimmed non-empty text, the first reasoning, or a named tool.
pub open spec fn part_preview(p: Json, reasoning_seen: bool) -> Option<PartView> {
    let kind = text_field(p, "type"@);
    if kind == Some("text"@) {
        match text_field(p, "text"@) {
            Some(t) => if trim(t).len() > 0 {
                Some(PartView::Text(trim(t)))
            } else {
                None
            },
            None => None,
        }
    } else if kind == Some("reasoning"@) && !reasoning_seen {
        Some(PartView::Activity(ActivityView::Reasoning))
    } else if kind == Some("tool"@) {
        match text_field(p, "name"@) {
            Some(n) => if trim(n).len() > 0 {
                Some(
                    PartView::Activity(
                        ActivityView::Tool {
                            name: trim(n),
                            title: match text_field(p, "title"@) {
                                Some(t) => if join(words(t), " "@).len() > 0 {
                                    Some(join(words(t), " "@))
                                } else {
                                    None
                                },
                                None => None,
                            },
                            running: text_field(p, "status"@) == Some("running"@),
                        },
                    ),
                )
            } else {
                None
            },
            None => None,
        }
    } else {
        None
    }
}

/// The previews of the response parts, in order, and whether a reasoning
/// part was among them.
pub open spec fn parts_fold(ps: Seq<Json>) -> (Seq<PartView>, bool)
    decreases ps.len(),
{
    if ps.len() == 0 {
        (seq![], false)
    } else {
        let (previews, seen) = parts_fold(ps.drop_last());
        let next_seen = seen || text_field(ps.last(), "type"@) == Some("reasoning"@);
        match part_preview(ps.last(), seen) {
            Some(v) => (previews.push(v), next_seen),
            None => (previews, next_seen),
        }
    }
}

/// How many previews are tool calls.
pub open spec fn tool_count(ps: Seq<PartView>) -> nat
    decreases ps.len(),
{
    if ps.len() == 0 {
        0
    } else {
        tool_count(ps.drop_last()) + match ps.last() {
            PartView::Activity(ActivityView::Tool { .. }) => 1nat,
            _ => 0nat,
        }
    }
}

/// The request a row's response makes, at `now_ms`.
pub open spec fn spec_request(row: TranscriptRow, now_ms: u64) -> RequestView {
    let ps = match part_list(row) {
        Some(ps) => ps,
        None => seq![],
    };
    let previews = parts_fold(ps).0;
    let (found, total) = reasoning_fold(ps, now_ms);
    RequestView {
        parts: previews,
        reasoning_active: ps.len() > 0 && text_field(ps.last(), "type"@) == Some("reasoning"@),
        duration_ms: match row.response_started_at {
            Some(start) => Some(
                match row.response_completed_at {
                    Some(e) => e,
                    None => now_ms,
                }.saturating_sub(start),
            ),
            None => None,
        },
        reasoning_duration_ms: if part_list(row) is Some && found {
            Some(total)
        } else {
            None
        },
        tool_call_count: tool_count(previews) as u64,
    }
}

fn text_is(t: &Option<String>, expected: &str) -> (r: bool)
    ensures
        r == (opt_text(*t) == Some(expected@)),
{
    match t {
        Some(s) => str_eq(s.as_str(), expected),
        None => false,
    }
}

fn preview_part(p: &Json, reasoning_seen: bool) -> (r: Option<AgentRequestPartPreview>)
    ensures
        match part_preview(*p, reasoning_seen) {
            Some(v) => r matches Some(x) && x@ == v,
            None => r is None,
        },
{
    let kind = text_member(p, "type");
    if text_is(&kind, "text") {
        return match text_member(p, "text") {
            Some(t) => {
                let trimmed = trim_chars(&chars_of(t.as_str()));
                if trimmed.len() > 0 {
                    Some(AgentRequestPartPreview::Text(string_of(trimmed.as_slice())))
                } else {
                    None
                }
            },
            None => None,
        };
    }
    if text_is(&kind, "reasoning") && !reasoning_seen {
        return Some(AgentRequestPartPreview::Activity(AgentActivityPreview::Reasoning));
    }
    if !text_is(&kind, "tool") {
        return None;
    }
    let name = match text_member(p, "name") {
        Some(n) => trim_chars(&chars_of(n.as_str())),
        None => {
            return None;
        },
    };
    if name.len() == 0 {
        return None;
    }
    let title = match text_member(p, "title") {
        Some(t) => {
            let parts = split_whitespace(&chars_of(t.as_str()));
            let space = chars_of(" ");
            let joined = join_chars(&parts, &space);
            proof {
                assert(parts@.map_values(|q: Vec<char>| q@) =~= words(t@));
            }
            if joined.len() > 0 {
                Some(string_of(joined.as_slice()))
            } else {
                None
            }
        },
        None => None,
    };
    let status = text_member(p, "status");
    let running = text_is(&status, "running");
    Some(
        AgentRequestPartPreview::Activity(
            AgentActivityPreview::Tool { name: string_of(name.as_slice()), title, running },
        ),
    )
}

/// The request a row's response makes, at `now_ms`.
pub fn request(row: &TranscriptRow, now_ms: u64) -> (r: AgentRequestPreview)
    ensures
        r@ == spec_request(*row, now_ms),
{
    let empty: Vec<Json> = Vec::new();
    let listed = match &row.response_parts {
        Some(Json::Array(v)) => Some(v),
        _ => None,
    };
    let ps = match listed {
        Some(v) => v,
        None => &empty,
    };
    let mut previews: Vec<AgentRequestPartPreview> = Vec::new();
    let mut seen = false;
    let mut found = false;
    let mut total: u64 = 0;
    let mut tools: u64 = 0;
    let mut i: usize = 0;
    while i < ps.len()
        invariant
            i <= ps.len(),
            (parts_fold(ps@.take(i as int)).0, parts_fold(ps@.take(i as int)).1) == (
                previews@.map_values(|x: AgentRequestPartPreview| x@),
                seen,
            ),
            reasoning_fold(ps@.take(i as int), now_ms) == (found, total),
            tools as nat == tool_count(previews@.map_values(|x: AgentRequestPartPreview| x@)),
            tools <= previews@.len(),
            previews@.len() <= i,
        decreases ps.len() - i,
    {
        let ghost prefix = ps@.take(i + 1);
        assert(prefix.drop_last() =~= ps@.take(i as int));
        assert(prefix.last() == ps@[i as int]);
        let ghost before = previews@.map_values(|x: AgentRequestPartPreview| x@);
        let kind = text_member(&ps[i], "type");
        let is_reasoning = text_is(&kind, "reasoning");
        match preview_part(&ps[i], seen) {
            Some(x) => {
                let is_tool = match &x {
                    AgentRequestPartPreview::Activity(AgentActivityPreview::Tool { .. }) => true,
                    _ => false,
                };
                let ghost xv = x@;
                previews.push(x);
                assert(previews@.map_values(|y: AgentRequestPartPreview| y@) =~= before.push(xv));
                assert(before.push(xv).drop_last() =~= before);
                assert(is_tool == (xv matches PartView::Activity(ActivityView::Tool { .. })));
                if is_tool {
                    tools = tools + 1;
                }
            },
            None => {},
        }
        if is_reasoning {
            match as_unsigned(get(&ps[i], "started_at")) {
                Some(start) => {
                    let end = match as_unsigned(get(&ps[i], "completed_at")) {
                        Some(e) => e,
                        None => now_ms,
                    };
                    found = true;
                    total = total.saturating_add(end.saturating_sub(start));
                },
                None => {},
            }
        }
        seen = seen || is_reasoning;
        i = i + 1;
    }
    assert(ps@.take(ps@.len() as int) =~= ps@);
    let reasoning_active = if ps.len() > 0 {
        let kind = text_member(&ps[ps.len() - 1], "type");
        text_is(&kind, "reasoning")
    } else {
        false
    };
    let duration_ms = match row.response_started_at {
        Some(start) => {
            let end = match row.response_completed_at {
                Some(e) => e,
                None => now_ms,
            };
            Some(end.saturating_sub(start))
        },
        None => None,
    };
    let reasoning_duration_ms = if listed.is_some() && found {
        Some(total)
    } else {
        None
    };
    let r = AgentRequestPreview {
        parts: previews,
        reasoning_active,
        duration_ms,
        reasoning_duration_ms,
        tool_call_count: tools,
    };
    r
}

/// A user message being collected from the rows: its id, the text parts
/// and responses already taken in, and the message so far.
pub struct Building {
    pub id: Seq<char>,
    pub user_parts: Seq<Seq<char>>,
    pub response_ids: Seq<Seq<char>>,
    pub message: MessageView,
}

/// A row's user text, trimmed; empty when it has none.
pub open spec fn row_text(row: TranscriptRow) -> Seq<char> {
    match row.text {
        Some(t) => trim(t@),
        None => seq![],
    }
}

/// Takes a row into the messages collected so far: a row of the last
/// message adds its text part and its response once each; a row of another
/// message starts one when it has text; a row without ids is skipped.
pub open spec fn collect_step(acc: Seq<Building>, row: TranscriptRow, now_ms: u64) -> Seq<Building> {
    match (row.message_id, row.user_part_id) {
        (Some(id), Some(part)) => {
            let text = row_text(row);
            if acc.len() > 0 && acc.last().id == id@ {
                let b = acc.last();
                let b1 = if text.len() > 0 && !b.user_parts.contains(part@) {
                    Building {
                        user_parts: b.user_parts.push(part@),
                        message: MessageView { text: b.message.text + "\n\n"@ + text, ..b.message },
                        ..b
                    }
                } else {
                    b
                };
                let b2 = match row.response_id {
                    Some(rid) => if !b1.response_ids.contains(rid@) {
                        Building {
                            response_ids: b1.response_ids.push(rid@),
                            message: MessageView {
                                requests: b1.message.requests.push(spec_request(row, now_ms)),
                                ..b1.message
                            },
                            ..b1
                        }
                    } else {
                        b1
                    },
                    None => b1,
                };
                acc.update(acc.len() - 1, b2)
            } else if text.len() > 0 {
                acc.push(
                    Building {
                        id: id@,
                        user_parts: seq![part@],
                        response_ids: match row.response_id {
                            Some(r) => seq![r@],
                            None => seq![],
                        },
                        message: MessageView {
                            text,
                            requests: match row.response_id {
                                Some(_) => seq![spec_request(row, now_ms)],
                                None => seq![],
                            },
                        },
                    },
                )
            } else {
                acc
            }
        },
        _ => acc,
    }
}

/// The messages the rows make, in order.
pub open spec fn collect(rows: Seq<TranscriptRow>, now_ms: u64) -> Seq<Building>
    decreases rows.len(),
{
    if rows.len() == 0 {
        seq![]
    } else {
        collect_step(collect(rows.drop_last(), now_ms), rows.last(), now_ms)
    }
}

/// Joins each message to the one before while that one still waits for the
/// agent's output: the texts joined, the later requests kept.
pub open spec fn group(ms: Seq<MessageView>) -> Seq<MessageView>
    decreases ms.len(),
{
    if ms.len() == 0 {
        seq![]
    } else {
        let g = group(ms.drop_last());
        let m = ms.last();
        if g.len() > 0 && spec_waiting_for_agent_output(g.last()) {
            g.update(g.len() - 1, MessageView { text: g.last().text + "\n\n"@ + m.text, requests: m.requests })
        } else {
            g.push(m)
        }
    }
}

/// The transcript the rows make, or why there is none.
pub open spec fn spec_parse_rows(rows: Seq<TranscriptRow>, now_ms: u64) -> Result<Seq<MessageView>, Seq<char>> {
    let g = group(collect(rows, now_ms).map_values(|b: Building| b.message));
    if g.len() > 0 {
        Ok(g)
    } else {
        Err("OpenCode session has no user message"@)
    }
}

/// A user message being collected.
struct BuildingMessage {
    id: String,
    user_parts: Vec<String>,
    response_ids: Vec<String>,
    message: AgentUserMessage,
}

spec fn building_view(b: BuildingMessage) -> Building {
    Building {
        id: b.id@,
        user_parts: b.user_parts@.map_values(|x: String| x@),
        response_ids: b.response_ids@.map_values(|x: String| x@),
        message: b.message@,
    }
}

spec fn buildings(v: Seq<BuildingMessage>) -> Seq<Building> {
    v.map_values(|b: BuildingMessage| building_view(b))
}

fn contains_text(v: &Vec<String>, s: &str) -> (r: bool)
    ensures
        r == v@.map_values(|x: String| x@).contains(s@),
{
    let ghost views = v@.map_values(|x: String| x@);
    let mut i: usize = 0;
    while i < v.len()
        invariant
            i <= v.len(),
            views == v@.map_values(|x: String| x@),
            forall|k: int| 0 <= k < i ==> views[k] != s@,
        decreases v.len() - i,
    {
        if str_eq(v[i].as_str(), s) {
            assert(views[i as int] == s@);
            return true;
        }
        i = i + 1;
    }
    false
}

fn collect_rows(rows: &Vec<TranscriptRow>, now_ms: u64) -> (r: Vec<BuildingMessage>)
    ensures
        buildings(r@) == collect(rows@, now_ms),
{
    let mut acc: Vec<BuildingMessage> = Vec::new();
    let mut i: usize = 0;
    assert(buildings(acc@) =~= collect(rows@.take(0), now_ms));
    while i < rows.len()
        invariant
            i <= rows.len(),
            buildings(acc@) == collect(rows@.take(i as int), now_ms),
        decreases rows.len() - i,
    {
        let ghost prefix = rows@.take(i + 1);
        assert(prefix.drop_last() =~= rows@.take(i as int));
        assert(prefix.last() == rows@[i as int]);
        let ghost before = buildings(acc@);
        let row = &rows[i];
        match (&row.message_id, &row.user_part_id) {
            (Some(id), Some(part)) => {
                let text_chars = match &row.text {
                    Some(t) => trim_chars(&chars_of(t.as_str())),
                    None => Vec::new(),
                };
                let has_text = text_chars.len() > 0;
                let text = string_of(text_chars.as_slice());
                let same = acc.len() > 0 && str_eq(acc[acc.len() - 1].id.as_str(), id.as_str());
                if same {
                    let mut b = acc.pop().unwrap();
                    let ghost b0 = building_view(b);
                    if has_text && !contains_text(&b.user_parts, part.as_str()) {
                        append_str(&mut b.message.text, "\n\n");
                        append_str(&mut b.message.text, text.as_str());
                        let ghost parts_before = b.user_parts@;
                        b.user_parts.push(part.clone());
                        assert(b.user_parts@.map_values(|x: String| x@) =~= parts_before.map_values(
                            |x: String| x@,
                        ).push(part@));
                    }
                    let ghost b1 = building_view(b);
                    match &row.response_id {
                        Some(rid) => {
                            if !contains_text(&b.response_ids, rid.as_str()) {
                                let ghost requests_before = b.message.requests@;
                                let ghost ids_before = b.response_ids@;
                                let req = request(row, now_ms);
                                b.message.requests.push(req);
                                assert(b.message.requests@.map_values(|x: AgentRequestPreview| x@)
                                    =~= requests_before.map_values(|x: AgentRequestPreview| x@).push(
                                    spec_request(*row, now_ms),
                                ));
                                b.response_ids.push(rid.clone());
                                assert(b.response_ids@.map_values(|x: String| x@) =~= ids_before.map_values(
                                    |x: String| x@,
                                ).push(rid@));
                            }
                        },
                        None => {},
                    }
                    let ghost b2 = building_view(b);
                    acc.push(b);
                    assert(buildings(acc@) =~= before.update(before.len() - 1, b2));
                } else if has_text {
                    let mut requests: Vec<AgentRequestPreview> = Vec::new();
                    let mut response_ids: Vec<String> = Vec::new();
                    match &row.response_id {
                        Some(rid) => {
                            requests.push(request(row, now_ms));
                            response_ids.push(rid.clone());
                        },
                        None => {},
                    }
                    let mut user_parts: Vec<String> = Vec::new();
                    user_parts.push(part.clone());
                    let b = BuildingMessage {
                        id: id.clone(),
                        user_parts,
                        response_ids,
                        message: AgentUserMessage { text, requests },
                    };
                    proof {
                        let v = building_view(b);
                        assert(v.user_parts =~= seq![part@]);
                        match &row.response_id {
                            Some(r) => {
                                assert(v.response_ids =~= seq![r@]);
                                assert(v.message.requests =~= seq![spec_request(*row, now_ms)]);
                            },
                            None => {
                                assert(v.response_ids =~= Seq::<Seq<char>>::empty());
                                assert(v.message.requests =~= Seq::<RequestView>::empty());
                            },
                        }
                    }
                    let ghost bv = building_view(b);
                    acc.push(b);
                    assert(buildings(acc@) =~= before.push(bv));
                }
            },
            _ => {},
        }
        i = i + 1;
    }
    assert(rows@.take(rows@.len() as int) =~= rows@);
    acc
}

/// Reads the transcript the rows make, at `now_ms`.
pub fn parse_rows(rows: &Vec<TranscriptRow>, now_ms: u64) -> (r: Result<Vec<AgentUserMessage>, String>)
    ensures
        match spec_parse_rows(rows@, now_ms) {
            Ok(ms) => r matches Ok(v) && v@.map_values(|m: AgentUserMessage| m@) == ms,
            Err(e) => r matches Err(m) && m@ == e,
        },
{
    let mut collected = collect_rows(rows, now_ms);
    let ghost messages = buildings(collected@).map_values(|b: Building| b.message);
    let total = collected.len();
    let ghost n = collected@.len();
    let mut grouped: Vec<AgentUserMessage> = Vec::new();
    let mut k: usize = 0;
    let ghost all = collected@;
    assert(messages.take(0) =~= Seq::<MessageView>::empty());
    while collected.len() > 0
        invariant
            k + collected@.len() == n,
            n == total,
            n == all.len(),
            messages == buildings(all).map_values(|b: Building| b.message),
            collected@ == all.skip(k as int),
            grouped@.map_values(|m: AgentUserMessage| m@) == group(messages.take(k as int)),
        decreases collected@.len(),
    {
        let b = collected.remove(0);
        assert(collected@ =~= all.skip(k + 1));
        assert(b == all[k as int]);
        let ghost prefix = messages.take(k + 1);
        assert(prefix.drop_last() =~= messages.take(k as int));
        assert(prefix.last() == b.message@);
        let ghost before = grouped@.map_values(|m: AgentUserMessage| m@);
        let waiting = grouped.len() > 0 && waiting_for_agent_output(&grouped[grouped.len() - 1]);
        if waiting {
            let mut pending = grouped.pop().unwrap();
            append_str(&mut pending.text, "\n\n");
            append_str(&mut pending.text, b.message.text.as_str());
            pending.requests = b.message.requests;
            let ghost pv = pending@;
            grouped.push(pending);
            assert(grouped@.map_values(|m: AgentUserMessage| m@) =~= before.update(before.len() - 1, pv));
        } else {
            let ghost mv = b.message@;
            grouped.push(b.message);
            assert(grouped@.map_values(|m: AgentUserMessage| m@) =~= before.push(mv));
        }
        k = k + 1;
    }
    assert(messages.take(n as int) =~= messages);
    assert(collect(rows@, now_ms).map_values(|b: Building| b.message) =~= messages);
    if grouped.len() > 0 {
        Ok(grouped)
    } else {
        Err(String::from_str("OpenCode session has no user message"))
    }
}

/// The ids of the rows that have one, in order.
pub open spec fn row_ids(rows: Seq<Json>) -> Seq<Seq<char>>
    decreases rows.len(),
{
    if rows.len() == 0 {
        seq![]
    } else {
        match text_field(rows.last(), "id"@) {
            Some(id) => row_ids(rows.drop_last()).push(id),
            None => row_ids(rows.drop_last()),
        }
    }
}

/// The one session an OpenCode session query found, or why there is not
/// exactly one. `output` is the query's JSON, or why it was none.
pub open spec fn spec_session_id(output: Result<Json, String>) -> Result<Seq<char>, Seq<char>> {
    match output {
        Err(detail) => Err("OpenCode returned invalid session data: "@ + detail@),
        Ok(value) => {
            let ids = match items(Some(value)) {
                Some(rows) => row_ids(rows),
                None => seq![],
            };
            if ids.len() == 0 {
                Err("OpenCode session could not be identified"@)
            } else if ids.len() > 1 {
                Err("Multiple OpenCode sessions match this agent"@)
            } else {
                Ok(ids[0])
            }
        },
    }
}

/// Reads the one session an OpenCode session query found.
pub fn parse_session_id(output: &Result<Json, String>) -> (r: Result<String, String>)
    ensures
        match spec_session_id(*output) {
            Ok(id) => r matches Ok(s) && s@ == id,
            Err(e) => r matches Err(m) && m@ == e,
        },
{
    let value = match output {
        Err(detail) => {
            let mut message = String::from_str("OpenCode returned invalid session data: ");
            append_str(&mut message, detail.as_str());
            return Err(message);
        },
        Ok(v) => v,
    };
    let empty: Vec<Json> = Vec::new();
    let rows = match as_items(Some(value)) {
        Some(r) => r,
        None => &empty,
    };
    let mut found: Vec<String> = Vec::new();
    let mut i: usize = 0;
    while i < rows.len() && found.len() < 2
        invariant
            i <= rows.len(),
            found@.len() <= 2,
            found@.map_values(|x: String| x@) == row_ids(rows@.take(i as int)),
        decreases rows.len() - i,
    {
        let ghost prefix = rows@.take(i + 1);
        assert(prefix.drop_last() =~= rows@.take(i as int));
        assert(prefix.last() == rows@[i as int]);
        let ghost before = found@;
        match text_member(&rows[i], "id") {
            Some(id) => {
                found.push(id);
                assert(found@.map_values(|x: String| x@) =~= before.map_values(|x: String| x@).push(id@));
            },
            None => {},
        }
        i = i + 1;
    }
    proof {
        lemma_row_ids_grow(rows@, i as int);
        if i == rows.len() {
            assert(rows@.take(i as int) =~= rows@);
        }
    }
    if found.len() == 0 {
        Err(String::from_str("OpenCode session could not be identified"))
    } else if found.len() > 1 {
        Err(String::from_str("Multiple OpenCode sessions match this agent"))
    } else {
        let id = found.pop().unwrap();
        Ok(id)
    }
}

/// The ids of a prefix of the rows come first among the ids of all of them.
proof fn lemma_row_ids_grow(rows: Seq<Json>, k: int)
    requires
        0 <= k <= rows.len(),
    ensures
        row_ids(rows).len() >= row_ids(rows.take(k)).len(),
        row_ids(rows.take(k)).len() > 0 ==> row_ids(rows)[0] == row_ids(rows.take(k))[0],
    decreases rows.len() - k,
{
    if k < rows.len() {
        lemma_row_ids_grow(rows, k + 1);
        assert(rows.take(k + 1).drop_last() =~= rows.take(k));
    } else {
        assert(rows.take(k) =~= rows);
    }
}

/// The query that finds the session of a stashed agent: the top-level,
/// unarchived session of `directory` with the agent's title.
pub open spec fn spec_session_lookup_query(directory: Seq<char>, title: Seq<char>) -> Seq<char> {
    "SELECT id FROM session WHERE directory = "@ + sql_literal(directory) + " AND title = "@ + sql_literal(title)
        + " AND parent_id IS NULL AND time_archived IS NULL"@
}

/// A SQL string literal holding `value`, as `sql_string` writes it.
pub open spec fn sql_literal(value: Seq<char>) -> Seq<char> {
    seq!['\''] + doubled_quotes(value) + seq!['\'']
}

pub fn session_lookup_query(directory: &str, title: &str) -> (r: String)
    ensures
        r@ == spec_session_lookup_query(directory@, title@),
{
    let mut query = String::from_str("SELECT id FROM session WHERE directory = ");
    let d = sql_string(directory);
    append_str(&mut query, d.as_str());
    append_str(&mut query, " AND title = ");
    let t = sql_string(title);
    append_str(&mut query, t.as_str());
    append_str(&mut query, " AND parent_id IS NULL AND time_archived IS NULL");
    query
}

/// The query that finds the session a scheduled run started: the top-level
/// session of `directory` with a user text part equal to the prompt, up to
/// surrounding whitespace, created nearest to the run.
pub open spec fn spec_scheduled_session_query(directory: Seq<char>, prompt: Seq<char>, run_created_at_ms: int) -> Seq<char> {
    "SELECT DISTINCT session.id FROM session JOIN message ON message.session_id = session.id JOIN part ON part.message_id = message.id WHERE session.directory = "@
        + sql_literal(directory)
        + " AND session.parent_id IS NULL AND json_extract(message.data, '$.role') = 'user' AND json_extract(part.data, '$.type') = 'text' AND trim(json_extract(part.data, '$.text')) = trim("@
        + sql_literal(prompt) + ") ORDER BY abs(session.time_created - "@ + signed_decimal(run_created_at_ms)
        + ") LIMIT 1"@
}

pub fn scheduled_session_query(directory: &str, prompt: &str, run_created_at_ms: i64) -> (r: String)
    ensures
        r@ == spec_scheduled_session_query(directory@, prompt@, run_created_at_ms as int),
{
    let mut query = String::from_str(
        "SELECT DISTINCT session.id FROM session JOIN message ON message.session_id = session.id JOIN part ON part.message_id = message.id WHERE session.directory = ",
    );
    let d = sql_string(directory);
    append_str(&mut query, d.as_str());
    append_str(
        &mut query,
        " AND session.parent_id IS NULL AND json_extract(message.data, '$.role') = 'user' AND json_extract(part.data, '$.type') = 'text' AND trim(json_extract(part.data, '$.text')) = trim(",
    );
    let p = sql_string(prompt);
    append_str(&mut query, p.as_str());
    append_str(&mut query, ") ORDER BY abs(session.time_created - ");
    let created = i64_decimal(run_created_at_ms);
    append_str(&mut query, created.as_str());
    append_str(&mut query, ") LIMIT 1");
    query
}

/// What a session lookup through `opencode db` found: a timeout, a cut
/// output or a failed command is an error; else the one session the rows name.
pub open spec fn spec_lookup_outcome(
    timed_out: bool,
    truncated: bool,
    success: bool,
    stderr: Seq<char>,
    rows: Result<Json, String>,
) -> Result<Seq<char>, Seq<char>> {
    if timed_out {
        Err("OpenCode session lookup timed out"@)
    } else if truncated {
        Err("OpenCode returned too many matching sessions"@)
    } else if !success {
        Err("OpenCode session lookup failed: "@ + trim(stderr))
    } else {
        spec_session_id(rows)
    }
}

pub fn lookup_outcome(
    timed_out: bool,
    truncated: bool,
    success: bool,
    stderr: &str,
    rows: &Result<Json, String>,
) -> (r: Result<String, String>)
    ensures
        match spec_lookup_outcome(timed_out, truncated, success, stderr@, *rows) {
            Ok(id) => r matches Ok(s) && s@ == id,
            Err(e) => r matches Err(m) && m@ == e,
        },
{
    if timed_out {
        return Err(String::from_str("OpenCode session lookup timed out"));
    }
    if truncated {
        return Err(String::from_str("OpenCode returned too many matching sessions"));
    }
    if !success {
        let mut message = String::from_str("OpenCode session lookup failed: ");
        let detail = trim_chars(&chars_of(stderr));
        let detail_text = string_of(detail.as_slice());
        append_str(&mut message, detail_text.as_str());
        return Err(message);
    }
    parse_session_id(rows)
}

/// The trimmed, non-empty texts among the text parts of a response.
pub open spec fn kept_texts(parts: Seq<Option<Seq<char>>>) -> Seq<Seq<char>>
    decreases parts.len(),
{
    if parts.len() == 0 {
        seq![]
    } else {
        kept_texts(parts.drop_last()) + match parts.last() {
            Some(t) => if trim(t).len() > 0 {
                seq![trim(t)]
            } else {
                seq![]
            },
            None => seq![],
        }
    }
}

/// The final answer of a response: its text parts, trimmed, without the
/// empty ones, separated by blank lines; a response without text has no answer.
pub open spec fn spec_final_text(parts: Seq<Option<Seq<char>>>) -> Result<Seq<char>, Seq<char>> {
    let text = join(kept_texts(parts), "\n\n"@);
    if text.len() == 0 {
        Err("OpenCode's final assistant response has no text"@)
    } else {
        Ok(text)
    }
}

pub fn final_text_of_parts(parts: &Vec<Option<String>>) -> (r: Result<String, String>)
    ensures
        match spec_final_text(parts@.map_values(|p: Option<String>| opt_text(p))) {
            Ok(t) => r matches Ok(s) && s@ == t,
            Err(e) => r matches Err(m) && m@ == e,
        },
{
    let ghost views = parts@.map_values(|p: Option<String>| opt_text(p));
    let mut kept: Vec<Vec<char>> = Vec::new();
    let mut i: usize = 0;
    while i < parts.len()
        invariant
            i <= parts.len(),
            views == parts@.map_values(|p: Option<String>| opt_text(p)),
            kept@.map_values(|k: Vec<char>| k@) == kept_texts(views.take(i as int)),
        decreases parts.len() - i,
    {
        assert(views.take(i + 1).drop_last() =~= views.take(i as int));
        let ghost before = kept@.map_values(|k: Vec<char>| k@);
        match &parts[i] {
            Some(t) => {
                let trimmed = trim_chars(&chars_of(t.as_str()));
                if trimmed.len() > 0 {
                    kept.push(trimmed);
                    assert(kept@.map_values(|k: Vec<char>| k@) =~= before + seq![trim(t@)]);
                } else {
                    assert(before + seq![] =~= before);
                }
            },
            None => {
                assert(before + seq![] =~= before);
            },
        }
        i = i + 1;
    }
    assert(views.take(parts.len() as int) =~= views);
    let sep: Vec<char> = vec!['\n', '\n'];
    assert(sep@ =~= "\n\n"@) by {
        reveal_strlit("\n\n");
    }
    let text = join_chars(&kept, &sep);
    if text.len() == 0 {
        Err(String::from_str("OpenCode's final assistant response has no text"))
    } else {
        Ok(string_of(text.as_slice()))
    }
}

} // verus!
