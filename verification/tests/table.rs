use hunkle::agent::AgentTimingKey;
use hunkle::table::stable_id_exec;

#[test]
fn stable_ids_escape_keys_as_json_strings() {
    let id: String = stable_id_exec(&AgentTimingKey::Pane("a\"b\\c\n\u{1}".to_owned())).into_iter().collect();
    assert_eq!(id, "{\"scope\":\"pane\",\"identity\":\"a\\\"b\\\\c\\n\\u0001\"}");
}
