//! How the issue browser talks to the GitHub CLI: the GraphQL page it asks
//! for, the arguments of each call, how a page of the answer is read, when
//! paging stops, and what a failed call reports.
use vstd::prelude::*;
use crate::agent::opt_view;
use crate::issues::{Issue, IssueScope};
use crate::json::{as_flag, as_items, as_text, as_unsigned, field, field_of, flag, get, items, text, unsigned, Json};
use crate::text::append_str;

verus! {

/// The value behind a reference that may be missing.
pub open spec fn val(j: Option<&Json>) -> Option<Json> {
    match j {
        Some(x) => Some(*x),
        None => None,
    }
}

/// A member read as an `Option`: missing or null stands for nothing.
pub open spec fn absent(j: Option<Json>) -> bool {
    j is None || j == Some(Json::Null)
}

/// The value is an object.
pub open spec fn is_object(j: Option<Json>) -> bool {
    j matches Some(Json::Object(_))
}

/// An optional text member: nothing, or a string.
pub open spec fn opt_text_ok(j: Option<Json>) -> bool {
    absent(j) || text(j) is Some
}

/// An optional count member: nothing, or an unsigned integer.
pub open spec fn opt_unsigned_ok(j: Option<Json>) -> bool {
    absent(j) || unsigned(j) is Some
}

/// The author: nothing, or an object with a `login` text.
pub open spec fn author_ok(j: Option<Json>) -> bool {
    absent(j) || text(field_of(j, "login"@)) is Some
}

/// The labels: an object whose `nodes` are objects with a `name` text each.
pub open spec fn labels_ok(j: Option<Json>) -> bool {
    items(field_of(j, "nodes"@)) matches Some(ns) && forall|i: int|
        0 <= i < ns.len() ==> #[trigger] text(field(ns[i], "name"@)) is Some
}

/// The label names read from the labels member.
pub open spec fn labels_read(j: Option<Json>, names: Seq<String>) -> bool {
    items(field_of(j, "nodes"@)) matches Some(ns) && names.len() == ns.len() && forall|i: int|
        0 <= i < ns.len() ==> Some(#[trigger] names[i]@) == text(field(ns[i], "name"@))
}

/// A node of the answer has the shape of an issue or pull request.
pub open spec fn node_ok(n: Json) -> bool {
    &&& unsigned(field(n, "number"@)) is Some
    &&& text(field(n, "title"@)) is Some
    &&& text(field(n, "body"@)) is Some
    &&& author_ok(field(n, "author"@))
    &&& labels_ok(field(n, "labels"@))
    &&& text(field(n, "state"@)) is Some
    &&& text(field(n, "updatedAt"@)) is Some
    &&& (field(n, "isDraft"@) is None || flag(field(n, "isDraft"@)) is Some)
    &&& opt_unsigned_ok(field(n, "changedFiles"@))
    &&& opt_unsigned_ok(field(n, "additions"@))
    &&& opt_unsigned_ok(field(n, "deletions"@))
    &&& opt_text_ok(field(n, "mergedAt"@))
}

/// `issue` is what the node `n` holds, listed as a pull request or not.
pub open spec fn read_issue(n: Json, pull_request: bool, issue: Issue) -> bool {
    &&& unsigned(field(n, "number"@)) == Some(issue.number)
    &&& text(field(n, "title"@)) == Some(issue.title@)
    &&& text(field(n, "body"@)) == Some(issue.body@)
    &&& opt_view(issue.author) == text(field_of(field(n, "author"@), "login"@))
    &&& labels_read(field(n, "labels"@), issue.labels@)
    &&& issue.pull_request == pull_request
    &&& text(field(n, "state"@)) == Some(issue.state@)
    &&& issue.is_draft == (flag(field(n, "isDraft"@)) == Some(true))
    &&& issue.changed_files == unsigned(field(n, "changedFiles"@))
    &&& issue.additions == unsigned(field(n, "additions"@))
    &&& issue.deletions == unsigned(field(n, "deletions"@))
    &&& opt_view(issue.merged_at) == text(field(n, "mergedAt"@))
    &&& text(field(n, "updatedAt"@)) == Some(issue.updated_at@)
}

/// Where paging goes on from.
#[derive(Debug)]
pub struct PageInfo {
    pub has_next_page: bool,
    pub end_cursor: Option<String>,
}

/// The page information has the expected shape.
pub open spec fn page_info_ok(j: Option<Json>) -> bool {
    flag(field_of(j, "hasNextPage"@)) is Some && opt_text_ok(field_of(j, "endCursor"@))
}

/// `page` is what the page information holds.
pub open spec fn page_info_read(j: Option<Json>, page: PageInfo) -> bool {
    flag(field_of(j, "hasNextPage"@)) == Some(page.has_next_page) && opt_view(page.end_cursor)
        == text(field_of(j, "endCursor"@))
}

/// The connection: nodes of the expected shape, and page information.
pub open spec fn connection_ok(c: Option<Json>) -> bool {
    &&& items(field_of(c, "nodes"@)) matches Some(ns) && forall|i: int|
        0 <= i < ns.len() ==> #[trigger] node_ok(ns[i])
    &&& page_info_ok(field_of(c, "pageInfo"@))
}

/// The repository: nothing, or an object with the connection `items`.
pub open spec fn repository_ok(r: Option<Json>) -> bool {
    absent(r) || (is_object(r) && connection_ok(field_of(r, "items"@)))
}

/// The data: nothing, or an object with an optional repository.
pub open spec fn data_ok(d: Option<Json>) -> bool {
    absent(d) || (is_object(d) && repository_ok(field_of(d, "repository"@)))
}

/// The errors: missing, or a list of objects with a `message` text each.
pub open spec fn errors_ok(e: Option<Json>) -> bool {
    e is None || (items(e) matches Some(es) && forall|i: int|
        0 <= i < es.len() ==> #[trigger] text(field(es[i], "message"@)) is Some)
}

/// The whole answer has the shape of a GraphQL response.
pub open spec fn response_ok(top: Json) -> bool {
    is_object(Some(top)) && data_ok(field(top, "data"@)) && errors_ok(field(top, "errors"@))
}

/// The message of the answer's first error.
pub open spec fn first_error(top: Json) -> Option<Seq<char>> {
    match items(field(top, "errors"@)) {
        Some(es) => if es.len() > 0 {
            text(field(es[0], "message"@))
        } else {
            None
        },
        None => None,
    }
}

/// The connection of the repository's items, when the answer names one.
pub open spec fn connection_of(top: Json) -> Option<Json> {
    let repository = field_of(field(top, "data"@), "repository"@);
    if absent(repository) {
        None
    } else {
        field_of(repository, "items"@)
    }
}

/// What an answer that could not be read is reported as.
pub open spec fn unreadable(noun: Seq<char>, detail: Seq<char>) -> Seq<char> {
    "Could not read GitHub "@ + noun + ": "@ + detail
}

/// The detail of an answer that is JSON of another shape.
pub open spec fn shape_detail() -> Seq<char> {
    "the response did not have the expected shape"@
}

/// `r` is what a page of the answer `top` gives: the shape is checked first,
/// then the first error is reported, then a missing repository; otherwise
/// the nodes, each read as an issue, and the page information.
pub open spec fn page_read(
    top: Json,
    pull_request: bool,
    noun: Seq<char>,
    r: Result<(Vec<Issue>, PageInfo), String>,
) -> bool {
    if !response_ok(top) {
        r matches Err(m) && m@ == unreadable(noun, shape_detail())
    } else if first_error(top) is Some {
        r matches Err(m) && Some(m@) == first_error(top)
    } else if connection_of(top) is None {
        r matches Err(m) && m@ == "GitHub repository was not found"@
    } else {
        &&& r matches Ok(page) && items(field_of(connection_of(top), "nodes"@)) matches Some(ns)
            && page.0@.len() == ns.len() && (forall|i: int|
            0 <= i < ns.len() ==> #[trigger] read_issue(ns[i], pull_request, page.0@[i]))
            && page_info_read(field_of(connection_of(top), "pageInfo"@), page.1)
    }
}

fn is_absent(j: Option<&Json>) -> (r: bool)
    ensures
        r == absent(val(j)),
{
    match j {
        None => true,
        Some(Json::Null) => true,
        _ => false,
    }
}

fn is_object_value(j: Option<&Json>) -> (r: bool)
    ensures
        r == is_object(val(j)),
{
    match j {
        Some(Json::Object(_)) => true,
        _ => false,
    }
}

/// Reads an optional text member; nothing when it has another shape.
fn read_opt_text(j: Option<&Json>) -> (r: Option<Option<String>>)
    ensures
        r is Some <==> opt_text_ok(val(j)),
        r matches Some(t) ==> opt_view(t) == text(val(j)),
{
    if is_absent(j) {
        Some(None)
    } else {
        match as_text(j) {
            Some(t) => Some(Some(t)),
            None => None,
        }
    }
}

/// Reads an optional count member; nothing when it has another shape.
fn read_opt_unsigned(j: Option<&Json>) -> (r: Option<Option<u64>>)
    ensures
        r is Some <==> opt_unsigned_ok(val(j)),
        r matches Some(n) ==> n == unsigned(val(j)),
{
    if is_absent(j) {
        Some(None)
    } else {
        match as_unsigned(j) {
            Some(n) => Some(Some(n)),
            None => None,
        }
    }
}

fn read_labels(j: Option<&Json>) -> (r: Option<Vec<String>>)
    ensures
        r is Some <==> labels_ok(val(j)),
        r matches Some(v) ==> labels_read(val(j), v@),
{
    let nodes = match j {
        Some(x) => as_items(get(x, "nodes")),
        None => None,
    };
    match nodes {
        Some(ns) => {
            let mut names: Vec<String> = Vec::new();
            let mut i: usize = 0;
            while i < ns.len()
                invariant
                    i <= ns.len(),
                    items(field_of(val(j), "nodes"@)) == Some(ns@),
                    names@.len() == i,
                    forall|k: int| 0 <= k < i ==> Some(#[trigger] names@[k]@) == text(field(ns@[k], "name"@)),
                    forall|k: int| 0 <= k < i ==> #[trigger] text(field(ns@[k], "name"@)) is Some,
                decreases ns.len() - i,
            {
                match as_text(get(&ns[i], "name")) {
                    Some(name) => names.push(name),
                    None => return None,
                }
                i = i + 1;
            }
            Some(names)
        },
        None => None,
    }
}

/// Reads a node of the answer as an issue or pull request; nothing when it
/// has another shape.
fn read_node(n: &Json, pull_request: bool) -> (r: Option<Issue>)
    ensures
        r is Some <==> node_ok(*n),
        r matches Some(issue) ==> read_issue(*n, pull_request, issue),
{
    let number = match as_unsigned(get(n, "number")) {
        Some(v) => v,
        None => return None,
    };
    let title = match as_text(get(n, "title")) {
        Some(v) => v,
        None => return None,
    };
    let body = match as_text(get(n, "body")) {
        Some(v) => v,
        None => return None,
    };
    let author_value = get(n, "author");
    let author = if is_absent(author_value) {
        None
    } else {
        match author_value {
            Some(a) => match as_text(get(a, "login")) {
                Some(login) => Some(login),
                None => return None,
            },
            None => None,
        }
    };
    let labels = match read_labels(get(n, "labels")) {
        Some(v) => v,
        None => return None,
    };
    let state = match as_text(get(n, "state")) {
        Some(v) => v,
        None => return None,
    };
    let updated_at = match as_text(get(n, "updatedAt")) {
        Some(v) => v,
        None => return None,
    };
    let draft_value = get(n, "isDraft");
    let is_draft = match draft_value {
        None => false,
        Some(_) => match as_flag(draft_value) {
            Some(b) => b,
            None => return None,
        },
    };
    let changed_files = match read_opt_unsigned(get(n, "changedFiles")) {
        Some(v) => v,
        None => return None,
    };
    let additions = match read_opt_unsigned(get(n, "additions")) {
        Some(v) => v,
        None => return None,
    };
    let deletions = match read_opt_unsigned(get(n, "deletions")) {
        Some(v) => v,
        None => return None,
    };
    let merged_at = match read_opt_text(get(n, "mergedAt")) {
        Some(v) => v,
        None => return None,
    };
    Some(
        Issue {
            number,
            title,
            body,
            author,
            labels,
            pull_request,
            state,
            is_draft,
            changed_files,
            additions,
            deletions,
            merged_at,
            updated_at,
        },
    )
}

fn read_page_info(j: Option<&Json>) -> (r: Option<PageInfo>)
    ensures
        r is Some <==> page_info_ok(val(j)),
        r matches Some(p) ==> page_info_read(val(j), p),
{
    let (next, cursor) = match j {
        Some(x) => (as_flag(get(x, "hasNextPage")), read_opt_text(get(x, "endCursor"))),
        None => (None, read_opt_text(None)),
    };
    match (next, cursor) {
        (Some(has_next_page), Some(end_cursor)) => Some(PageInfo { has_next_page, end_cursor }),
        _ => None,
    }
}

/// The nodes and page information of a connection; nothing when it has
/// another shape.
fn read_connection(c: Option<&Json>, pull_request: bool) -> (r: Option<(Vec<Issue>, PageInfo)>)
    ensures
        r is Some <==> connection_ok(val(c)),
        r matches Some(page) ==> items(field_of(val(c), "nodes"@)) matches Some(ns)
            && page.0@.len() == ns.len() && (forall|i: int|
            0 <= i < ns.len() ==> #[trigger] read_issue(ns[i], pull_request, page.0@[i]))
            && page_info_read(field_of(val(c), "pageInfo"@), page.1),
{
    let (nodes, info) = match c {
        Some(x) => (as_items(get(x, "nodes")), get(x, "pageInfo")),
        None => (None, None),
    };
    let ns = match nodes {
        Some(ns) => ns,
        None => return None,
    };
    let mut issues: Vec<Issue> = Vec::new();
    let mut i: usize = 0;
    while i < ns.len()
        invariant
            i <= ns.len(),
            items(field_of(val(c), "nodes"@)) == Some(ns@),
            issues@.len() == i,
            forall|k: int| 0 <= k < i ==> #[trigger] read_issue(ns@[k], pull_request, issues@[k]),
            forall|k: int| 0 <= k < i ==> #[trigger] node_ok(ns@[k]),
        decreases ns.len() - i,
    {
        match read_node(&ns[i], pull_request) {
            Some(issue) => issues.push(issue),
            None => {
                proof {
                    if connection_ok(val(c)) {
                        let ghost listed = items(field_of(val(c), "nodes"@))->0;
                        assert(listed == ns@);
                        assert(node_ok(listed[i as int]));
                    }
                }
                return None;
            },
        }
        i = i + 1;
    }
    assert(val(info) == field_of(val(c), "pageInfo"@));
    match read_page_info(info) {
        Some(page) => Some((issues, page)),
        None => None,
    }
}

/// The answer's errors are well formed; the first message, if any.
fn read_errors(e: Option<&Json>) -> (r: Option<Option<String>>)
    ensures
        r is Some <==> errors_ok(val(e)),
        r matches Some(first) ==> opt_view(first) == (match items(val(e)) {
            Some(es) => if es.len() > 0 {
                text(field(es[0], "message"@))
            } else {
                None
            },
            None => None,
        }),
{
    if e.is_none() {
        return Some(None);
    }
    let es = match as_items(e) {
        Some(es) => es,
        None => return None,
    };
    let mut i: usize = 0;
    while i < es.len()
        invariant
            i <= es.len(),
            items(val(e)) == Some(es@),
            forall|k: int| 0 <= k < i ==> #[trigger] text(field(es@[k], "message"@)) is Some,
        decreases es.len() - i,
    {
        if as_text(get(&es[i], "message")).is_none() {
            return None;
        }
        i = i + 1;
    }
    if es.len() > 0 {
        Some(as_text(get(&es[0], "message")))
    } else {
        Some(None)
    }
}

/// `"Could not read GitHub {noun}: {detail}"`.
fn unreadable_message(noun: &str, detail: &str) -> (r: String)
    ensures
        r@ == unreadable(noun@, detail@),
{
    let mut m = String::from_str("Could not read GitHub ");
    append_str(&mut m, noun);
    append_str(&mut m, ": ");
    append_str(&mut m, detail);
    m
}

/// Reads a page of the GitHub CLI's GraphQL answer, given as parsed JSON or
/// as the parser's error: the items, each marked as a pull request or not,
/// and where paging goes on.
pub fn parse_graph_page(output: &Result<Json, String>, pull_request: bool, noun: &str) -> (r: Result<(Vec<Issue>, PageInfo), String>)
    ensures
        match output {
            Err(e) => r matches Err(m) && m@ == unreadable(noun@, e@),
            Ok(top) => page_read(*top, pull_request, noun@, r),
        },
{
    let top = match output {
        Err(e) => return Err(unreadable_message(noun, e.as_str())),
        Ok(top) => top,
    };
    let shape_error = "the response did not have the expected shape";
    proof {
        reveal_strlit("the response did not have the expected shape");
    }
    if !is_object_value(Some(top)) {
        return Err(unreadable_message(noun, shape_error));
    }
    let data = get(top, "data");
    let repository = match data {
        Some(d) => get(d, "repository"),
        None => None,
    };
    let first = read_errors(get(top, "errors"));
    let data_absent = is_absent(data);
    let repository_absent = is_absent(repository);
    let page = if data_absent || repository_absent {
        None
    } else {
        match repository {
            Some(x) => read_connection(get(x, "items"), pull_request),
            None => None,
        }
    };
    proof {
        if !data_absent && !is_object(val(data)) {
            assert(val(repository) == field_of(val(data), "repository"@));
        }
    }
    let shape_ok = (data_absent || (is_object_value(data) && (repository_absent || (is_object_value(repository) && page.is_some())))) && first.is_some();
    if !shape_ok {
        return Err(unreadable_message(noun, shape_error));
    }
    match first {
        Some(Some(message)) => return Err(message),
        _ => {},
    }
    match page {
        Some(page) => Ok(page),
        None => Err(String::from_str("GitHub repository was not found")),
    }
}


/// At most this many items of a kind are loaded.
pub const ISSUE_LIMIT: usize = 1000;

/// What the items of a kind are called in messages.
pub open spec fn spec_noun(pull_request: bool) -> Seq<char> {
    if pull_request {
        "pull requests"@
    } else {
        "issues"@
    }
}

pub fn noun(pull_request: bool) -> (r: &'static str)
    ensures
        r@ == spec_noun(pull_request),
{
    if pull_request {
        "pull requests"
    } else {
        "issues"
    }
}

/// The GraphQL connection that lists the items of a kind.
pub open spec fn spec_collection(pull_request: bool) -> Seq<char> {
    if pull_request {
        "pullRequests"@
    } else {
        "issues"@
    }
}

/// The states that a scope lists: closed pull requests include merged ones.
pub open spec fn spec_states(pull_request: bool, scope: IssueScope) -> Seq<char> {
    match scope {
        IssueScope::Closed => if pull_request {
            "[CLOSED,MERGED]"@
        } else {
            "CLOSED"@
        },
        IssueScope::Open => "OPEN"@,
    }
}

/// The fields that only pull requests have.
pub open spec fn spec_pull_request_fields(pull_request: bool) -> Seq<char> {
    if pull_request {
        "isDraft changedFiles additions deletions mergedAt"@
    } else {
        ""@
    }
}

/// The GraphQL query of a page of items, newest update first.
pub open spec fn spec_graph_query(pull_request: bool, scope: IssueScope) -> Seq<char> {
    "query($owner:String!,$name:String!,$after:String){repository(owner:$owner,name:$name){items:"@
        + spec_collection(pull_request) + "(first:100,after:$after,states:"@ + spec_states(
        pull_request,
        scope,
    ) + ",orderBy:{field:UPDATED_AT,direction:DESC}){nodes{number title body author{login} labels(first:20){nodes{name}} state updatedAt "@
        + spec_pull_request_fields(pull_request) + "}pageInfo{hasNextPage endCursor}}}}"@
}

pub fn graph_query(pull_request: bool, scope: IssueScope) -> (r: String)
    ensures
        r@ == spec_graph_query(pull_request, scope),
{
    let collection = if pull_request {
        "pullRequests"
    } else {
        "issues"
    };
    let states = match scope {
        IssueScope::Closed => if pull_request {
            "[CLOSED,MERGED]"
        } else {
            "CLOSED"
        },
        IssueScope::Open => "OPEN",
    };
    let fields = if pull_request {
        "isDraft changedFiles additions deletions mergedAt"
    } else {
        ""
    };
    let mut q = String::from_str(
        "query($owner:String!,$name:String!,$after:String){repository(owner:$owner,name:$name){items:",
    );
    append_str(&mut q, collection);
    append_str(&mut q, "(first:100,after:$after,states:");
    append_str(&mut q, states);
    append_str(
        &mut q,
        ",orderBy:{field:UPDATED_AT,direction:DESC}){nodes{number title body author{login} labels(first:20){nodes{name}} state updatedAt ",
    );
    append_str(&mut q, fields);
    append_str(&mut q, "}pageInfo{hasNextPage endCursor}}}}");
    q
}

fn prefixed(prefix: &str, value: &str) -> (r: String)
    ensures
        r@ == prefix@ + value@,
{
    let mut s = prefix.to_string();
    append_str(&mut s, value);
    s
}

/// The arguments of `gh` for a page of the query, after `cursor` when
/// given.
pub open spec fn spec_graph_args(
    query: Seq<char>,
    owner: Seq<char>,
    name: Seq<char>,
    cursor: Option<Seq<char>>,
) -> Seq<Seq<char>> {
    let base = seq![
        "api"@,
        "graphql"@,
        "-f"@,
        "query="@ + query,
        "-F"@,
        "owner="@ + owner,
        "-F"@,
        "name="@ + name,
    ];
    match cursor {
        Some(c) => base + seq!["-F"@, "after="@ + c],
        None => base,
    }
}

pub fn graph_args(query: &str, owner: &str, name: &str, cursor: Option<&str>) -> (r: Vec<String>)
    ensures
        crate::layout::views(r@) == spec_graph_args(
            query@,
            owner@,
            name@,
            match cursor {
                Some(c) => Some(c@),
                None => None,
            },
        ),
{
    let mut args: Vec<String> = Vec::new();
    args.push("api".to_string());
    args.push("graphql".to_string());
    args.push("-f".to_string());
    args.push(prefixed("query=", query));
    args.push("-F".to_string());
    args.push(prefixed("owner=", owner));
    args.push("-F".to_string());
    args.push(prefixed("name=", name));
    match cursor {
        Some(c) => {
            args.push("-F".to_string());
            args.push(prefixed("after=", c));
        },
        None => {},
    }
    proof {
        reveal_strlit("api");
        reveal_strlit("graphql");
        reveal_strlit("-f");
        reveal_strlit("-F");
    }
    assert(crate::layout::views(args@) =~= spec_graph_args(
        query@,
        owner@,
        name@,
        match cursor {
            Some(c) => Some(c@),
            None => None,
        },
    ));
    args
}

/// The arguments of `gh` that name the repository of the working directory.
pub fn repository_view_args() -> (r: Vec<String>)
    ensures
        crate::layout::views(r@) == seq!["repo"@, "view"@, "--json"@, "nameWithOwner"@],
{
    let mut args: Vec<String> = Vec::new();
    args.push("repo".to_string());
    args.push("view".to_string());
    args.push("--json".to_string());
    args.push("nameWithOwner".to_string());
    assert(crate::layout::views(args@) =~= seq!["repo"@, "view"@, "--json"@, "nameWithOwner"@]);
    args
}

/// What comes after a page of items.
#[derive(Debug)]
pub enum PageStep {
    /// Paging is over.
    Done,
    /// The next page starts after this cursor.
    Next(String),
    /// Paging cannot go on.
    Failed(String),
}

/// After a page of `batch_len` items, with `loaded` items before it: the
/// count so far, and whether to ask for the next page. Paging stops at the
/// last page or once the limit is reached; a next page without a cursor is
/// an error.
pub fn next_page(loaded: usize, batch_len: usize, page: &PageInfo, noun: &str) -> (r: (usize, PageStep))
    requires
        loaded + batch_len <= usize::MAX,
    ensures
        r.0 == loaded + batch_len,
        (!page.has_next_page || r.0 >= ISSUE_LIMIT) ==> r.1 is Done,
        (page.has_next_page && r.0 < ISSUE_LIMIT) ==> match page.end_cursor {
            Some(c) => r.1 matches PageStep::Next(n) && n@ == c@,
            None => r.1 matches PageStep::Failed(m) && m@ == "GitHub "@ + noun@
                + " pagination cursor was missing"@,
        },
{
    let total = loaded + batch_len;
    if !page.has_next_page || total >= ISSUE_LIMIT {
        return (total, PageStep::Done);
    }
    match &page.end_cursor {
        Some(c) => (total, PageStep::Next(c.clone())),
        None => {
            let mut m = String::from_str("GitHub ");
            append_str(&mut m, noun);
            append_str(&mut m, " pagination cursor was missing");
            (total, PageStep::Failed(m))
        },
    }
}

/// What a call of the GitHub CLI that could not start reports: a missing
/// program, or the system's error.
pub fn start_error(not_found: bool, error: &str) -> (r: String)
    ensures
        not_found ==> r@ == "GitHub CLI (`gh`) is required to browse issues"@,
        !not_found ==> r@ == "Could not start GitHub CLI: "@ + error@,
{
    if not_found {
        String::from_str("GitHub CLI (`gh`) is required to browse issues")
    } else {
        prefixed("Could not start GitHub CLI: ", error)
    }
}

/// What a finished call of the GitHub CLI gives: its output, or why it
/// failed: a timeout, an answer cut short, or the first line of its error
/// output.
pub fn call_result(
    noun: &str,
    timed_out: bool,
    truncated: bool,
    success: bool,
    stderr: &[u8],
    stdout: Vec<u8>,
) -> (r: Result<Vec<u8>, String>)
    ensures
        timed_out ==> (r matches Err(m) && m@ == "Loading GitHub "@ + noun@ + " timed out"@),
        !timed_out && truncated ==> (r matches Err(m) && m@ == "GitHub "@ + noun@
            + " response was too large"@),
        !timed_out && !truncated && !success ==> (r matches Err(m) && m@ == match crate::client::first_detail(
            crate::client::utf8_lossy(stderr@),
        ) {
            Some(d) => d,
            None => "GitHub CLI returned an error"@,
        }),
        !timed_out && !truncated && success ==> (r matches Ok(out) && out@ == stdout@),
{
    if timed_out {
        let mut m = String::from_str("Loading GitHub ");
        append_str(&mut m, noun);
        append_str(&mut m, " timed out");
        return Err(m);
    }
    if truncated {
        let mut m = String::from_str("GitHub ");
        append_str(&mut m, noun);
        append_str(&mut m, " response was too large");
        return Err(m);
    }
    if !success {
        return match crate::client::stderr_detail(stderr) {
            Some(d) => Err(d),
            None => Err(String::from_str("GitHub CLI returned an error")),
        };
    }
    Ok(stdout)
}

/// `text` split at its first `/`, when it has one.
pub open spec fn split_at_slash(text: Seq<char>) -> Option<(Seq<char>, Seq<char>)> {
    if exists|i: int| 0 <= i < text.len() && text[i] == '/' {
        let i = choose|i: int|
            0 <= i < text.len() && text[i] == '/' && forall|j: int| 0 <= j < i ==> text[j] != '/';
        Some((text.take(i), text.skip(i + 1)))
    } else {
        None
    }
}

/// The owner and name of the repository, read from the answer of
/// `gh repo view --json nameWithOwner`, given as parsed JSON or as the
/// parser's error.
pub fn repository_identity(output: &Result<Json, String>) -> (r: Result<(String, String), String>)
    ensures
        match output {
            Err(e) => r matches Err(m) && m@ == "Could not identify GitHub repository: "@ + e@,
            Ok(top) => match text(field(*top, "nameWithOwner"@)) {
                None => r matches Err(m) && m@ == "Could not identify GitHub repository: "@
                    + shape_detail(),
                Some(full) => match split_at_slash(full) {
                    Some(parts) => r matches Ok(p) && p.0@ == parts.0 && p.1@ == parts.1,
                    None => r matches Err(m) && m@ == "GitHub CLI returned an invalid repository name"@,
                },
            },
        },
{
    let top = match output {
        Err(e) => return Err(prefixed("Could not identify GitHub repository: ", e.as_str())),
        Ok(top) => top,
    };
    proof {
        reveal_strlit("the response did not have the expected shape");
    }
    let full = match as_text(get(top, "nameWithOwner")) {
        Some(t) => t,
        None => return Err(
            prefixed(
                "Could not identify GitHub repository: ",
                "the response did not have the expected shape",
            ),
        ),
    };
    let chars = crate::text::chars_of(full.as_str());
    let mut i: usize = 0;
    while i < chars.len() && chars[i] != '/'
        invariant
            i <= chars.len(),
            chars@ == full@,
            forall|j: int| 0 <= j < i ==> chars@[j] != '/',
        decreases chars.len() - i,
    {
        i = i + 1;
    }
    if i == chars.len() {
        return Err(String::from_str("GitHub CLI returned an invalid repository name"));
    }
    proof {
        let k = choose|k: int|
            0 <= k < full@.len() && full@[k] == '/' && forall|j: int| 0 <= j < k ==> full@[j] != '/';
        assert(full@[i as int] == '/');
        if k < i {
            assert(chars@[k] != '/');
        }
        if k > i {
            assert(full@[i as int] != '/');
        }
        assert(k == i);
    }
    let owner_chars = crate::text::chars_range(&chars, 0, i);
    let name_chars = crate::text::chars_range(&chars, i + 1, chars.len());
    let owner = crate::text::string_of(owner_chars.as_slice());
    let name = crate::text::string_of(name_chars.as_slice());
    assert(owner@ =~= full@.take(i as int));
    assert(name@ =~= full@.skip(i + 1));
    Ok((owner, name))
}
} // verus!
