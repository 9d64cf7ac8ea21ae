use hunkle::issues::IssueScope;

#[test]
fn closed_scope_follows_open_scope() {
    assert_eq!(IssueScope::Open.toggle(), IssueScope::Closed);
    assert_eq!(IssueScope::Closed.toggle(), IssueScope::Open);
}

#[test]
fn toggling_twice_returns_to_the_scope() {
    assert_eq!(IssueScope::Open.toggle().toggle(), IssueScope::Open);
    assert_eq!(IssueScope::Closed.toggle().toggle(), IssueScope::Closed);
    assert_eq!(IssueScope::Open.label(), "OPEN");
    assert_eq!(IssueScope::Closed.label(), "CLOSED");
}

use hunkle::github::{
    call_result, graph_args, graph_query, next_page, parse_graph_page, repository_identity, start_error, PageInfo,
    PageStep,
};
use hunkle::issues::{
    merge_batch, Issue, IssueCatalog, IssueCompletion, IssueUpdate, CATALOG_FRESHNESS_MS,
};
use hunkle::json::{Json, JsonNumber};

fn convert(value: &serde_json::Value) -> Json {
    match value {
        serde_json::Value::Null => Json::Null,
        serde_json::Value::Bool(b) => Json::Bool(*b),
        serde_json::Value::Number(n) => Json::Number(JsonNumber {
            unsigned: n.as_u64(),
            f32_bits: n
                .as_f64()
                .map(|f| f as f32)
                .filter(|f| f.is_finite())
                .map(f32::to_bits),
        }),
        serde_json::Value::String(s) => Json::String(s.clone()),
        serde_json::Value::Array(items) => Json::Array(items.iter().map(convert).collect()),
        serde_json::Value::Object(fields) => Json::Object(
            fields
                .iter()
                .map(|(key, value)| (key.clone(), convert(value)))
                .collect(),
        ),
    }
}

fn parsed(raw: &[u8]) -> Result<Json, String> {
    serde_json::from_slice::<serde_json::Value>(raw)
        .map(|value| convert(&value))
        .map_err(|error| error.to_string())
}

fn issue(state: &str, is_draft: bool, merged_at: Option<&str>) -> Issue {
    Issue {
        number: 1,
        title: String::new(),
        body: String::new(),
        author: None,
        labels: Vec::new(),
        pull_request: true,
        state: state.to_owned(),
        is_draft,
        changed_files: None,
        additions: None,
        deletions: None,
        merged_at: merged_at.map(str::to_owned),
        updated_at: String::new(),
    }
}

fn dated(number: u64, updated_at: &str) -> Issue {
    Issue {
        number,
        title: format!("#{number}"),
        body: String::new(),
        author: None,
        labels: Vec::new(),
        pull_request: false,
        state: "OPEN".to_owned(),
        is_draft: false,
        changed_files: None,
        additions: None,
        deletions: None,
        merged_at: None,
        updated_at: updated_at.to_owned(),
    }
}

#[test]
fn parses_nullable_authors_and_labels() {
    let raw = br#"{"data":{"repository":{"items":{"nodes":[{"number":7,"title":"Document it","body":"Body","author":null,"labels":{"nodes":[{"name":"docs"}]},"state":"CLOSED","updatedAt":"2026-01-01T00:00:00Z"}],"pageInfo":{"hasNextPage":false,"endCursor":null}}}}}"#;
    let (parsed, page_info) = parse_graph_page(&parsed(raw), false, "issues").unwrap();

    assert_eq!(parsed[0].number, 7);
    assert!(parsed[0].author.is_none());
    assert_eq!(parsed[0].labels[0], "docs");
    assert!(!page_info.has_next_page);
}

#[test]
fn pull_request_status_distinguishes_lifecycle_states() {
    assert_eq!(issue("OPEN", false, None).status_label(), "READY");
    assert_eq!(issue("OPEN", true, None).status_label(), "DRAFT");
    assert_eq!(issue("CLOSED", false, None).status_label(), "CLOSED");
    assert_eq!(
        issue("CLOSED", false, Some("2026-01-01T00:00:00Z")).status_label(),
        "MERGED"
    );
}

#[test]
fn issue_status_ignores_the_case_of_the_state() {
    let mut closed = issue("closed", false, None);
    closed.pull_request = false;
    assert_eq!(closed.status_label(), "CLOSED");
    assert_eq!(closed.kind_label(), "ISSUE");
    let mut open = issue("OPEN", true, None);
    open.pull_request = false;
    assert_eq!(open.status_label(), "OPEN");
    assert_eq!(issue("Merged", false, None).status_label(), "MERGED");
    assert_eq!(issue("OPEN", false, None).kind_label(), "PULL");
}

#[test]
fn pull_requests_carry_their_change_counts_and_authors() {
    let raw = br#"{"data":{"repository":{"items":{"nodes":[{"number":12,"title":"Fix","body":"","author":{"login":"ana"},"labels":{"nodes":[]},"state":"MERGED","updatedAt":"2026-02-01T00:00:00Z","isDraft":false,"changedFiles":3,"additions":10,"deletions":2,"mergedAt":"2026-02-01T00:00:00Z"}],"pageInfo":{"hasNextPage":true,"endCursor":"abc"}}}}}"#;
    let (parsed, page_info) = parse_graph_page(&parsed(raw), true, "pull requests").unwrap();
    assert_eq!(parsed[0].author.as_deref(), Some("ana"));
    assert!(parsed[0].pull_request);
    assert_eq!(parsed[0].changed_files, Some(3));
    assert_eq!(parsed[0].additions, Some(10));
    assert_eq!(parsed[0].deletions, Some(2));
    assert_eq!(parsed[0].status_label(), "MERGED");
    assert!(page_info.has_next_page);
    assert_eq!(page_info.end_cursor.as_deref(), Some("abc"));
}

#[test]
fn graph_pages_report_errors_missing_repositories_and_bad_shapes() {
    let errors = br#"{"data":null,"errors":[{"message":"Bad credentials"},{"message":"later"}]}"#;
    assert_eq!(parse_graph_page(&parsed(errors), false, "issues").unwrap_err(), "Bad credentials");
    let missing = br#"{"data":{"repository":null}}"#;
    assert_eq!(
        parse_graph_page(&parsed(missing), false, "issues").unwrap_err(),
        "GitHub repository was not found"
    );
    let no_number = br#"{"data":{"repository":{"items":{"nodes":[{"title":"x"}],"pageInfo":{"hasNextPage":false}}}}}"#;
    assert_eq!(
        parse_graph_page(&parsed(no_number), false, "issues").unwrap_err(),
        "Could not read GitHub issues: the response did not have the expected shape"
    );
    assert_eq!(
        parse_graph_page(&Err("EOF while parsing".to_owned()), true, "pull requests").unwrap_err(),
        "Could not read GitHub pull requests: EOF while parsing"
    );
}

#[test]
fn graph_queries_ask_for_the_scope_and_kind() {
    let query = graph_query(true, hunkle::issues::IssueScope::Closed);
    assert_eq!(
        query,
        "query($owner:String!,$name:String!,$after:String){repository(owner:$owner,name:$name){items:pullRequests(first:100,after:$after,states:[CLOSED,MERGED],orderBy:{field:UPDATED_AT,direction:DESC}){nodes{number title body author{login} labels(first:20){nodes{name}} state updatedAt isDraft changedFiles additions deletions mergedAt}pageInfo{hasNextPage endCursor}}}}"
    );
    let issues = graph_query(false, hunkle::issues::IssueScope::Open);
    assert!(issues.contains("items:issues(first:100,after:$after,states:OPEN,"));
    assert!(issues.contains("state updatedAt }pageInfo"));
    assert_eq!(
        graph_args("Q", "me", "repo", Some("c1")),
        vec!["api", "graphql", "-f", "query=Q", "-F", "owner=me", "-F", "name=repo", "-F", "after=c1"]
    );
    assert_eq!(graph_args("Q", "me", "repo", None).len(), 8);
}

#[test]
fn paging_stops_at_the_last_page_or_the_limit() {
    let more = PageInfo { has_next_page: true, end_cursor: Some("next".to_owned()) };
    assert!(matches!(next_page(0, 100, &more, "issues"), (100, PageStep::Next(ref c)) if c == "next"));
    assert!(matches!(next_page(900, 100, &more, "issues"), (1000, PageStep::Done)));
    let last = PageInfo { has_next_page: false, end_cursor: None };
    assert!(matches!(next_page(0, 3, &last, "issues"), (3, PageStep::Done)));
    let broken = PageInfo { has_next_page: true, end_cursor: None };
    match next_page(0, 100, &broken, "pull requests") {
        (100, PageStep::Failed(message)) => {
            assert_eq!(message, "GitHub pull requests pagination cursor was missing")
        }
        other => panic!("unexpected step {other:?}"),
    }
}

#[test]
fn failed_cli_calls_explain_themselves() {
    assert_eq!(
        call_result("issues", true, false, false, b"", Vec::new()).unwrap_err(),
        "Loading GitHub issues timed out"
    );
    assert_eq!(
        call_result("issues", false, true, true, b"", Vec::new()).unwrap_err(),
        "GitHub issues response was too large"
    );
    assert_eq!(
        call_result("issues", false, false, false, b"\n  gh: not logged in  \nmore", Vec::new()).unwrap_err(),
        "gh: not logged in"
    );
    assert_eq!(
        call_result("issues", false, false, false, b"  \n", Vec::new()).unwrap_err(),
        "GitHub CLI returned an error"
    );
    assert_eq!(call_result("issues", false, false, true, b"", b"{}".to_vec()).unwrap(), b"{}".to_vec());
    assert_eq!(start_error(true, "x"), "GitHub CLI (`gh`) is required to browse issues");
    assert_eq!(start_error(false, "denied"), "Could not start GitHub CLI: denied");
}

#[test]
fn repository_identity_splits_owner_and_name() {
    let (owner, name) = repository_identity(&parsed(br#"{"nameWithOwner":"octo/hello/world"}"#)).unwrap();
    assert_eq!(owner, "octo");
    assert_eq!(name, "hello/world");
    assert_eq!(
        repository_identity(&parsed(br#"{"nameWithOwner":"plain"}"#)).unwrap_err(),
        "GitHub CLI returned an invalid repository name"
    );
    assert_eq!(
        repository_identity(&Err("boom".to_owned())).unwrap_err(),
        "Could not identify GitHub repository: boom"
    );
}

#[test]
fn merged_batches_are_newest_first_without_repeats() {
    let list = vec![dated(3, "2026-01-03"), dated(1, "2026-01-01")];
    let batch = vec![dated(2, "2026-01-02"), dated(3, "2026-01-03"), dated(4, "2026-01-03")];
    let merged = merge_batch(list, batch);
    let numbers: Vec<u64> = merged.iter().map(|issue| issue.number).collect();
    assert_eq!(numbers, vec![4, 3, 2, 1]);
}

#[test]
fn the_catalog_requests_once_and_ignores_stale_reports() {
    let mut catalog = IssueCatalog::new();
    let request = catalog.request("/repo", 1_000).unwrap();
    assert_eq!(request.generation, 1);
    assert_eq!(request.root, "/repo");
    assert!(catalog.loading());
    assert!(catalog.request("/repo", 1_000).is_none());

    let stale = IssueCompletion {
        generation: 0,
        root: "/repo".to_owned(),
        scope: request.scope,
        update: IssueUpdate::Batch(vec![dated(9, "2026-01-09")]),
    };
    assert!(!catalog.apply(stale, 1_100));
    assert!(catalog.issues().is_none());

    let batch = IssueCompletion {
        generation: 1,
        root: "/repo".to_owned(),
        scope: request.scope,
        update: IssueUpdate::Batch(vec![dated(1, "2026-01-01"), dated(2, "2026-01-02")]),
    };
    assert!(catalog.apply(batch, 1_200));
    assert_eq!(catalog.issues().unwrap()[0].number, 2);
    assert_eq!(catalog.issue(1).unwrap().title, "#1");
    assert!(catalog.issue(5).is_none());

    let done = IssueCompletion {
        generation: 1,
        root: "/repo".to_owned(),
        scope: request.scope,
        update: IssueUpdate::Finished(Ok(())),
    };
    assert!(catalog.apply(done, 2_000));
    assert!(!catalog.loading());
    assert!(catalog.error().is_none());
    assert!(catalog.request("/repo", 2_000 + CATALOG_FRESHNESS_MS - 1).is_none());
    let again = catalog.request("/repo", 2_000 + CATALOG_FRESHNESS_MS).unwrap();
    assert_eq!(again.generation, 1);
    assert!(catalog.issues().is_none());

    let other = catalog.request("/other", 2_000).unwrap();
    assert_eq!(other.generation, 2);
}

#[test]
fn a_failed_load_keeps_its_error_per_scope() {
    let mut catalog = IssueCatalog::new();
    let request = catalog.request("/repo", 0).unwrap();
    let failed = IssueCompletion {
        generation: request.generation,
        root: "/repo".to_owned(),
        scope: request.scope,
        update: IssueUpdate::Finished(Err("Bad credentials".to_owned())),
    };
    assert!(catalog.apply(failed, 10));
    assert_eq!(catalog.error(), Some("Bad credentials"));
    catalog.toggle_scope();
    assert!(catalog.error().is_none());
    let closed = catalog.request("/repo", 20).unwrap();
    catalog.request_failed(closed.scope);
    assert_eq!(catalog.error(), Some("GitHub issue worker stopped"));
    assert!(!catalog.loading());
}
