use hunkle::json::{Json, JsonNumber};
use hunkle::transcript::{sql_string, AgentActivityPreview, AgentRequestPartPreview, AgentUserMessage};
use hunkle::transcript_rows::{
    final_text_of_parts, lookup_outcome, parse_rows, parse_session_id, request, scheduled_session_query,
    session_lookup_query, TranscriptRow,
};

fn convert(value: &serde_json::Value) -> Json {
    match value {
        serde_json::Value::Null => Json::Null,
        serde_json::Value::Bool(b) => Json::Bool(*b),
        serde_json::Value::Number(n) => Json::Number(JsonNumber {
            unsigned: n.as_u64(),
            f32_bits: n
                .as_f64()
                .map(|f| f as f32)
                .filter(|f| f.is_finite())
                .map(f32::to_bits),
        }),
        serde_json::Value::String(s) => Json::String(s.clone()),
        serde_json::Value::Array(items) => Json::Array(items.iter().map(convert).collect()),
        serde_json::Value::Object(fields) => Json::Object(
            fields
                .iter()
                .map(|(key, value)| (key.clone(), convert(value)))
                .collect(),
        ),
    }
}

fn text(row: &serde_json::Value, key: &str) -> Option<String> {
    row.get(key).and_then(serde_json::Value::as_str).map(str::to_owned)
}

fn row(value: &serde_json::Value) -> TranscriptRow {
    TranscriptRow {
        message_id: text(value, "message_id"),
        user_part_id: text(value, "user_part_id"),
        text: text(value, "text"),
        response_id: text(value, "response_id"),
        response_started_at: value.get("response_started_at").and_then(serde_json::Value::as_u64),
        response_completed_at: value.get("response_completed_at").and_then(serde_json::Value::as_u64),
        response_parts: value
            .get("response_parts")
            .and_then(serde_json::Value::as_str)
            .and_then(|parts| serde_json::from_str::<serde_json::Value>(parts).ok())
            .map(|parts| convert(&parts)),
    }
}

fn parse(output: &str) -> Result<Vec<AgentUserMessage>, String> {
    let rows: serde_json::Value = serde_json::from_str(output).unwrap();
    let rows = rows.as_array().unwrap().iter().map(row).collect();
    parse_rows(&rows, 10_000)
}

#[test]
fn extracts_text_from_the_latest_user_message() {
    let earlier_parts = r#"[{"type":"text","text":"Earlier response","name":null,"title":null,"status":null},{"type":"tool","text":null,"name":"read","title":"src/main.rs","status":"completed"}]"#;
    let latest_parts = r#"[{"type":"text","text":"Latest response","name":null,"title":null,"status":null},{"type":"tool","text":null,"name":"apply_patch","title":"Updated files\nwith details","status":"running"},{"type":"reasoning","text":null,"name":null,"title":null,"status":null,"started_at":1000,"completed_at":2500},{"type":"reasoning","text":null,"name":null,"title":null,"status":null,"started_at":3000,"completed_at":3750}]"#;
    let read_parts = r#"[{"type":"tool","text":null,"name":"read","title":"context","status":"completed"}]"#;
    let rows = serde_json::to_string(&vec![
        serde_json::Value::from_iter([
            ("message_id".to_owned(), serde_json::Value::from("one")),
            ("user_part_id".to_owned(), serde_json::Value::from("one-user")),
            ("text".to_owned(), serde_json::Value::from("Earlier request")),
            ("response_id".to_owned(), serde_json::Value::from("one-response-a")),
            ("response_parts".to_owned(), serde_json::Value::from(earlier_parts)),
        ]),
        serde_json::Value::from_iter([
            ("message_id".to_owned(), serde_json::Value::from("two")),
            ("user_part_id".to_owned(), serde_json::Value::from("two-user-a")),
            ("text".to_owned(), serde_json::Value::from("Latest request")),
            ("response_id".to_owned(), serde_json::Value::from("two-response-a")),
            ("response_parts".to_owned(), serde_json::Value::from(read_parts)),
        ]),
        serde_json::Value::from_iter([
            ("message_id".to_owned(), serde_json::Value::from("two")),
            ("user_part_id".to_owned(), serde_json::Value::from("two-user-a")),
            ("text".to_owned(), serde_json::Value::from("Latest request")),
            ("response_id".to_owned(), serde_json::Value::from("two-response-b")),
            ("response_started_at".to_owned(), serde_json::Value::from(500)),
            ("response_completed_at".to_owned(), serde_json::Value::from(4500)),
            ("response_parts".to_owned(), serde_json::Value::from(latest_parts)),
        ]),
        serde_json::Value::from_iter([
            ("message_id".to_owned(), serde_json::Value::from("two")),
            ("user_part_id".to_owned(), serde_json::Value::from("two-user-b")),
            ("text".to_owned(), serde_json::Value::from("with context")),
            ("response_id".to_owned(), serde_json::Value::from("two-response-a")),
            ("response_parts".to_owned(), serde_json::Value::from("[]")),
        ]),
        serde_json::Value::from_iter([
            ("message_id".to_owned(), serde_json::Value::from("two")),
            ("user_part_id".to_owned(), serde_json::Value::from("two-user-b")),
            ("text".to_owned(), serde_json::Value::from("with context")),
            ("response_id".to_owned(), serde_json::Value::from("two-response-b")),
            ("response_parts".to_owned(), serde_json::Value::from("[]")),
        ]),
    ])
    .unwrap();

    let messages = parse(&rows).unwrap();
    assert_eq!(messages[0].text, "Earlier request");
    assert_eq!(messages[0].requests.len(), 1);
    assert_eq!(messages[0].requests[0].tool_call_count, 1);
    assert_eq!(
        messages[0].requests[0].parts,
        vec![
            AgentRequestPartPreview::Text("Earlier response".to_owned()),
            AgentRequestPartPreview::Activity(AgentActivityPreview::Tool {
                name: "read".to_owned(),
                title: Some("src/main.rs".to_owned()),
                running: false,
            }),
        ]
    );
    assert!(!messages[0].requests[0].reasoning_active);
    assert_eq!(messages[1].text, "Latest request\n\nwith context");
    assert_eq!(messages[1].requests.len(), 2);
    assert_eq!(messages[1].requests[1].tool_call_count, 1);
    assert_eq!(messages[1].requests[1].duration_ms, Some(4000));
    assert_eq!(messages[1].requests[1].reasoning_duration_ms, Some(2250));
    assert_eq!(
        messages[1].requests[1].parts,
        vec![
            AgentRequestPartPreview::Text("Latest response".to_owned()),
            AgentRequestPartPreview::Activity(AgentActivityPreview::Tool {
                name: "apply_patch".to_owned(),
                title: Some("Updated files with details".to_owned()),
                running: true,
            }),
            AgentRequestPartPreview::Activity(AgentActivityPreview::Reasoning),
        ]
    );
    assert!(messages[1].requests[1].reasoning_active);
}

#[test]
fn groups_queued_user_messages_with_the_final_response() {
    let rows = r#"[
        {"message_id": "completed", "user_part_id": "completed-user", "text": "Completed request",
         "response_id": "completed-response", "response_parts": "[{\"type\":\"text\",\"text\":\"Completed response\"}]"},
        {"message_id": "queued-one", "user_part_id": "queued-one-user", "text": "First queued prompt",
         "response_id": "queued-one-response", "response_parts": "[]"},
        {"message_id": "queued-two", "user_part_id": "queued-two-user", "text": "Second queued prompt",
         "response_id": "queued-two-response", "response_parts": "[]"},
        {"message_id": "queued-three", "user_part_id": "queued-three-user", "text": "Third queued prompt",
         "response_id": "queued-response", "response_parts": "[{\"type\":\"text\",\"text\":\"Combined response\"}]"}
    ]"#;

    let messages = parse(rows).unwrap();

    assert_eq!(messages.len(), 2);
    assert_eq!(messages[0].text, "Completed request");
    assert_eq!(messages[0].requests.len(), 1);
    assert_eq!(
        messages[1].text,
        "First queued prompt\n\nSecond queued prompt\n\nThird queued prompt"
    );
    assert_eq!(messages[1].requests.len(), 1);
    assert_eq!(
        messages[1].requests[0].parts,
        vec![AgentRequestPartPreview::Text("Combined response".to_owned())]
    );
}

#[test]
fn groups_queued_user_messages_before_output_starts() {
    let rows = r#"[
        {"message_id": "queued-one", "user_part_id": "queued-one-user", "text": "First queued prompt"},
        {"message_id": "queued-two", "user_part_id": "queued-two-user", "text": "Second queued prompt"}
    ]"#;

    let messages = parse(rows).unwrap();

    assert_eq!(messages.len(), 1);
    assert_eq!(messages[0].text, "First queued prompt\n\nSecond queued prompt");
    assert!(messages[0].requests.is_empty());
}

#[test]
fn rows_without_text_make_no_transcript() {
    assert_eq!(
        parse(r#"[{"message_id": "m", "user_part_id": "p", "text": "   "}, {"text": "orphan"}]"#).err(),
        Some("OpenCode session has no user message".to_owned())
    );
}

#[test]
fn a_running_request_is_timed_until_now() {
    let value = serde_json::from_str::<serde_json::Value>(
        r#"{"message_id": "m", "user_part_id": "p", "text": "go", "response_id": "r",
            "response_started_at": 7000,
            "response_parts": "[{\"type\":\"reasoning\",\"started_at\":9000},{\"type\":\"tool\",\"name\":\"  \"}]"}"#,
    )
    .unwrap();
    let preview = request(&row(&value), 10_000);
    assert_eq!(preview.duration_ms, Some(3_000));
    assert_eq!(preview.reasoning_duration_ms, Some(1_000));
    assert_eq!(
        preview.parts,
        vec![AgentRequestPartPreview::Activity(AgentActivityPreview::Reasoning)]
    );
    assert_eq!(preview.tool_call_count, 0);
    assert!(!preview.reasoning_active);
}

#[test]
fn resolves_only_an_unambiguous_session() {
    assert_eq!(sql_string("it's here"), "'it''s here'");
    let rows = |text: &str| -> Result<Json, String> {
        Ok(convert(&serde_json::from_str::<serde_json::Value>(text).unwrap()))
    };
    assert_eq!(
        parse_session_id(&rows(r#"[{"id":"ses_exact"}]"#)).unwrap(),
        "ses_exact"
    );
    assert_eq!(
        parse_session_id(&rows("[]")).unwrap_err(),
        "OpenCode session could not be identified"
    );
    assert_eq!(
        parse_session_id(&rows(r#"[{"id":"one"},{"id":"two"}]"#)).unwrap_err(),
        "Multiple OpenCode sessions match this agent"
    );
    assert_eq!(
        parse_session_id(&Err("eof".to_owned())).unwrap_err(),
        "OpenCode returned invalid session data: eof"
    );
}

#[test]
fn session_lookups_quote_their_values() {
    assert_eq!(
        session_lookup_query("/tmp/it's", "Fix"),
        "SELECT id FROM session WHERE directory = '/tmp/it''s' AND title = 'Fix' AND parent_id IS NULL AND time_archived IS NULL"
    );
    assert_eq!(
        scheduled_session_query("/srv", "Review 'x'", 1700),
        "SELECT DISTINCT session.id FROM session JOIN message ON message.session_id = session.id JOIN part ON part.message_id = message.id WHERE session.directory = '/srv' AND session.parent_id IS NULL AND json_extract(message.data, '$.role') = 'user' AND json_extract(part.data, '$.type') = 'text' AND trim(json_extract(part.data, '$.text')) = trim('Review ''x''') ORDER BY abs(session.time_created - 1700) LIMIT 1"
    );
}

#[test]
fn session_lookups_report_why_they_failed() {
    let rows: Result<Json, String> = Ok(convert(&serde_json::from_str(r#"[{"id": "ses_1"}]"#).unwrap()));
    assert_eq!(lookup_outcome(false, false, true, "", &rows), Ok("ses_1".to_owned()));
    assert_eq!(
        lookup_outcome(true, false, true, "", &rows),
        Err("OpenCode session lookup timed out".to_owned())
    );
    assert_eq!(
        lookup_outcome(false, true, true, "", &rows),
        Err("OpenCode returned too many matching sessions".to_owned())
    );
    assert_eq!(
        lookup_outcome(false, false, false, "  no database\n", &rows),
        Err("OpenCode session lookup failed: no database".to_owned())
    );
}

#[test]
fn final_answers_join_their_text_parts() {
    let parts = vec![
        Some("  First.  ".to_owned()),
        None,
        Some(" \n ".to_owned()),
        Some("Second.".to_owned()),
    ];
    assert_eq!(final_text_of_parts(&parts), Ok("First.\n\nSecond.".to_owned()));
    assert_eq!(
        final_text_of_parts(&vec![None, Some("   ".to_owned())]),
        Err("OpenCode's final assistant response has no text".to_owned())
    );
}
