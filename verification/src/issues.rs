//! GitHub issues and pull requests of a repository, as the issue browser
//! lists them: their labels, the catalog of what was loaded for each scope,
//! and how the GitHub CLI's answers are read.
use vstd::prelude::*;
use crate::text::{ascii_lower, char_to_ascii_lowercase, chars_of};

verus! {

/// Which GitHub items the issue browser lists.
#[derive(Debug, Clone, Copy, PartialEq, Eq, Hash, Structural)]
pub enum IssueScope {
    Open,
    Closed,
}

impl IssueScope {
    /// The other scope.
    pub open spec fn spec_toggle(self) -> IssueScope {
        match self {
            IssueScope::Open => IssueScope::Closed,
            IssueScope::Closed => IssueScope::Open,
        }
    }

    pub fn toggle(self) -> (r: IssueScope)
        ensures
            r == self.spec_toggle(),
    {
        match self {
            IssueScope::Open => IssueScope::Closed,
            IssueScope::Closed => IssueScope::Open,
        }
    }

    pub fn label(self) -> (r: &'static str)
        ensures
            self == IssueScope::Open ==> r@ == "OPEN"@,
            self == IssueScope::Closed ==> r@ == "CLOSED"@,
    {
        match self {
            IssueScope::Open => "OPEN",
            IssueScope::Closed => "CLOSED",
        }
    }
}

/// Toggling the scope twice gives the scope back, and toggling always changes it.
pub proof fn lemma_toggle_involution(scope: IssueScope)
    ensures
        scope.spec_toggle().spec_toggle() == scope,
        scope.spec_toggle() != scope,
{
}

/// A GitHub issue or pull request.
#[derive(Debug)]
pub struct Issue {
    pub number: u64,
    pub title: String,
    pub body: String,
    pub author: Option<String>,
    pub labels: Vec<String>,
    pub pull_request: bool,
    pub state: String,
    pub is_draft: bool,
    pub changed_files: Option<u64>,
    pub additions: Option<u64>,
    pub deletions: Option<u64>,
    pub merged_at: Option<String>,
    pub updated_at: String,
}

/// Whether two texts are equal when ASCII letters are compared without case
/// (`str::eq_ignore_ascii_case`).
pub open spec fn same_ignoring_ascii_case(a: Seq<char>, b: Seq<char>) -> bool {
    a.len() == b.len() && forall|i: int| 0 <= i < a.len() ==> ascii_lower(#[trigger] a[i]) == ascii_lower(b[i])
}

pub fn eq_ignore_ascii_case(a: &str, b: &str) -> (r: bool)
    ensures
        r == same_ignoring_ascii_case(a@, b@),
{
    let x = chars_of(a);
    let y = chars_of(b);
    if x.len() != y.len() {
        return false;
    }
    let mut i: usize = 0;
    while i < x.len()
        invariant
            i <= x.len(),
            x.len() == y.len(),
            x@ == a@,
            y@ == b@,
            forall|k: int| 0 <= k < i ==> ascii_lower(#[trigger] x@[k]) == ascii_lower(y@[k]),
        decreases x.len() - i,
    {
        if char_to_ascii_lowercase(x[i]) != char_to_ascii_lowercase(y[i]) {
            return false;
        }
        i = i + 1;
    }
    true
}

/// The label of an item's status: an issue is open or closed; a pull
/// request is merged, closed, a draft, or ready.
pub open spec fn spec_status_label(issue: Issue) -> Seq<char> {
    if !issue.pull_request {
        if same_ignoring_ascii_case(issue.state@, "closed"@) {
            "CLOSED"@
        } else {
            "OPEN"@
        }
    } else if same_ignoring_ascii_case(issue.state@, "merged"@) || issue.merged_at is Some {
        "MERGED"@
    } else if same_ignoring_ascii_case(issue.state@, "closed"@) {
        "CLOSED"@
    } else if issue.is_draft {
        "DRAFT"@
    } else {
        "READY"@
    }
}

/// A pull request closed without being merged is labelled CLOSED, draft or
/// not; DRAFT only ever labels an unmerged draft pull request that is not
/// closed.
pub proof fn lemma_closed_pull_request_label(issue: Issue)
    ensures
        issue.pull_request && same_ignoring_ascii_case(issue.state@, "closed"@) && issue.merged_at is None
            ==> spec_status_label(issue) == "CLOSED"@,
        spec_status_label(issue) == "DRAFT"@ ==> issue.pull_request && issue.is_draft
            && issue.merged_at is None && !same_ignoring_ascii_case(issue.state@, "closed"@)
            && !same_ignoring_ascii_case(issue.state@, "merged"@),
{
    reveal_strlit("closed");
    reveal_strlit("merged");
    reveal_strlit("CLOSED");
    reveal_strlit("DRAFT");
    reveal_strlit("MERGED");
    reveal_strlit("OPEN");
    reveal_strlit("READY");
    if same_ignoring_ascii_case(issue.state@, "closed"@) && same_ignoring_ascii_case(issue.state@, "merged"@) {
        assert(ascii_lower(issue.state@[0]) == ascii_lower("closed"@[0]));
        assert(ascii_lower(issue.state@[0]) == ascii_lower("merged"@[0]));
        assert(false);
    }
    assert("DRAFT"@ != "READY"@) by {
        assert("DRAFT"@[0] != "READY"@[0]);
    }
    assert("DRAFT"@ != "CLOSED"@ && "DRAFT"@ != "MERGED"@ && "DRAFT"@ != "OPEN"@) by {
        assert("DRAFT"@.len() != "CLOSED"@.len());
    }
}

impl Issue {
    pub fn kind_label(&self) -> (r: &'static str)
        ensures
            r@ == (if self.pull_request {
                "PULL"@
            } else {
                "ISSUE"@
            }),
    {
        if self.pull_request {
            "PULL"
        } else {
            "ISSUE"
        }
    }

    pub fn status_label(&self) -> (r: &'static str)
        ensures
            r@ == spec_status_label(*self),
    {
        if !self.pull_request {
            return if eq_ignore_ascii_case(self.state.as_str(), "closed") {
                "CLOSED"
            } else {
                "OPEN"
            };
        }
        if eq_ignore_ascii_case(self.state.as_str(), "merged") || self.merged_at.is_some() {
            "MERGED"
        } else if eq_ignore_ascii_case(self.state.as_str(), "closed") {
            "CLOSED"
        } else if self.is_draft {
            "DRAFT"
        } else {
            "READY"
        }
    }
}

/// Lexicographic order of texts by code point; for UTF-8 text it is the
/// order of `String`'s comparison of bytes.
pub open spec fn text_less(a: Seq<char>, b: Seq<char>) -> bool
    decreases a.len(),
{
    if a.len() == 0 {
        b.len() > 0
    } else if b.len() == 0 {
        false
    } else if a[0] != b[0] {
        a[0] < b[0]
    } else {
        text_less(a.drop_first(), b.drop_first())
    }
}

/// Of two texts, one comes first or they are equal.
pub proof fn lemma_text_order_total(a: Seq<char>, b: Seq<char>)
    ensures
        text_less(a, b) || a == b || text_less(b, a),
    decreases a.len(),
{
    if a.len() > 0 && b.len() > 0 && a[0] == b[0] {
        lemma_text_order_total(a.drop_first(), b.drop_first());
        if a.drop_first() == b.drop_first() {
            assert(a =~= seq![a[0]] + a.drop_first());
            assert(b =~= seq![b[0]] + b.drop_first());
        }
    } else if a.len() == 0 && b.len() == 0 {
        assert(a =~= b);
    }
}

fn less_text(a: &str, b: &str) -> (r: bool)
    ensures
        r == text_less(a@, b@),
{
    let x = chars_of(a);
    let y = chars_of(b);
    let mut i: usize = 0;
    assert(x@.skip(0) =~= x@);
    assert(y@.skip(0) =~= y@);
    while i < x.len() && i < y.len() && x[i] == y[i]
        invariant
            i <= x.len(),
            i <= y.len(),
            x@ == a@,
            y@ == b@,
            text_less(a@, b@) == text_less(x@.skip(i as int), y@.skip(i as int)),
        decreases x.len() - i,
    {
        assert(x@.skip(i as int).drop_first() =~= x@.skip(i + 1));
        assert(y@.skip(i as int).drop_first() =~= y@.skip(i + 1));
        i = i + 1;
    }
    if i == x.len() {
        i < y.len()
    } else if i == y.len() {
        false
    } else {
        assert(x@.skip(i as int)[0] == x@[i as int]);
        assert(y@.skip(i as int)[0] == y@[i as int]);
        x[i] < y[i]
    }
}

/// `a` may be listed before `b`: it was updated later, or at the same time
/// with a number no smaller.
pub open spec fn listed_before(a: Issue, b: Issue) -> bool {
    text_less(b.updated_at@, a.updated_at@) || (a.updated_at@ == b.updated_at@ && a.number >= b.number)
}

/// Issues listed newest first: each no later than any after it.
pub open spec fn newest_first(s: Seq<Issue>) -> bool {
    forall|i: int, j: int| 0 <= i < j < s.len() ==> #[trigger] listed_before(s[i], s[j])
}

pub proof fn lemma_text_less_transitive(a: Seq<char>, b: Seq<char>, c: Seq<char>)
    requires
        text_less(a, b),
        text_less(b, c),
    ensures
        text_less(a, c),
    decreases a.len(),
{
    if a.len() > 0 && a[0] == b[0] && b[0] == c[0] {
        lemma_text_less_transitive(a.drop_first(), b.drop_first(), c.drop_first());
    }
}

pub proof fn lemma_listed_before_transitive(a: Issue, b: Issue, c: Issue)
    requires
        listed_before(a, b),
        listed_before(b, c),
    ensures
        listed_before(a, c),
{
    if text_less(c.updated_at@, b.updated_at@) && text_less(b.updated_at@, a.updated_at@) {
        lemma_text_less_transitive(c.updated_at@, b.updated_at@, a.updated_at@);
    }
}

/// The issues of a sorted list without each issue that follows one with
/// the same number (`Vec::dedup_by_key`).
pub open spec fn dedup_numbers(s: Seq<Issue>) -> Seq<Issue>
    decreases s.len(),
{
    if s.len() == 0 {
        s
    } else if s.len() >= 2 && s[s.len() - 2].number == s.last().number {
        dedup_numbers(s.drop_last())
    } else {
        dedup_numbers(s.drop_last()).push(s.last())
    }
}

fn comes_before(a: &Issue, b: &Issue) -> (r: bool)
    ensures
        r == listed_before(*a, *b),
{
    less_text(b.updated_at.as_str(), a.updated_at.as_str()) || (crate::agent::str_eq(
        a.updated_at.as_str(),
        b.updated_at.as_str(),
    ) && a.number >= b.number)
}

/// Inserts an issue into a list kept newest first.
fn insert_newest_first(list: &mut Vec<Issue>, issue: Issue)
    requires
        newest_first(old(list)@),
    ensures
        newest_first(final(list)@),
        final(list)@.to_multiset() == old(list)@.to_multiset().insert(issue),
{
    let mut p: usize = 0;
    while p < list.len() && comes_before(&list[p], &issue)
        invariant
            p <= list.len(),
            forall|k: int| 0 <= k < p ==> #[trigger] listed_before(list@[k], issue),
        decreases list.len() - p,
    {
        p = p + 1;
    }
    proof {
        if p < list.len() {
            lemma_text_order_total(issue.updated_at@, list@[p as int].updated_at@);
            assert(listed_before(issue, list@[p as int]));
        }
        vstd::seq_lib::to_multiset_insert(list@, p as int, issue);
    }
    let ghost before = list@;
    list.insert(p, issue);
    assert(list@ == before.insert(p as int, issue));
    assert forall|i: int, j: int| 0 <= i < j < list@.len() implies #[trigger] listed_before(list@[i], list@[j]) by {
        if j < p {
            assert(listed_before(before[i], before[j]));
        } else if j == p {
            assert(listed_before(before[i], issue));
        } else if i < p {
            assert(listed_before(before[i], before[j - 1]));
        } else if i == p {
            let q = j - 1;
            if q > p {
                assert(listed_before(before[p as int], before[q]));
                lemma_listed_before_transitive(issue, before[p as int], before[q]);
            }
        } else {
            assert(listed_before(before[i - 1], before[j - 1]));
        }
    }
}

/// Each issue that dropping repeated numbers keeps is one of the list's.
proof fn lemma_dedup_keeps_members(s: Seq<Issue>)
    ensures
        forall|i: int| 0 <= i < dedup_numbers(s).len() ==> s.contains(#[trigger] dedup_numbers(s)[i]),
        dedup_numbers(s).len() <= s.len(),
    decreases s.len(),
{
    if s.len() > 0 {
        lemma_dedup_keeps_members(s.drop_last());
        let d = dedup_numbers(s.drop_last());
        assert forall|i: int| 0 <= i < dedup_numbers(s).len() implies s.contains(#[trigger] dedup_numbers(s)[i]) by {
            if i < d.len() {
                let k = choose|k: int| 0 <= k < s.drop_last().len() && s.drop_last()[k] == d[i];
                assert(s[k] == d[i]);
            } else {
                assert(s[s.len() - 1] == dedup_numbers(s)[i]);
            }
        }
    }
}

/// Dropping repeated numbers keeps a list newest first.
proof fn lemma_dedup_newest_first(s: Seq<Issue>)
    requires
        newest_first(s),
    ensures
        newest_first(dedup_numbers(s)),
    decreases s.len(),
{
    if s.len() > 0 {
        let t = s.drop_last();
        assert(newest_first(t)) by {
            assert forall|i: int, j: int| 0 <= i < j < t.len() implies #[trigger] listed_before(t[i], t[j]) by {
                assert(listed_before(s[i], s[j]));
            }
        }
        lemma_dedup_newest_first(t);
        lemma_dedup_keeps_members(t);
        let d = dedup_numbers(t);
        if !(s.len() >= 2 && s[s.len() - 2].number == s.last().number) {
            let e = d.push(s.last());
            assert forall|i: int, j: int| 0 <= i < j < e.len() implies #[trigger] listed_before(e[i], e[j]) by {
                if j < d.len() {
                    assert(listed_before(d[i], d[j]));
                } else {
                    assert(t.contains(d[i]));
                    let k = choose|k: int| 0 <= k < t.len() && t[k] == d[i];
                    assert(listed_before(s[k], s[s.len() - 1]));
                }
            }
        }
    }
}

/// `merged` lists the issues of `all`, each as often, newest first, without
/// each issue that follows one with the same number.
pub open spec fn merged_from(all: Seq<Issue>, merged: Seq<Issue>) -> bool {
    exists|sorted: Seq<Issue>| #[trigger] newest_first(sorted) && sorted.to_multiset() == all.to_multiset() && merged == dedup_numbers(sorted)
}

/// Merges a batch into a list: all issues newest first, without repeats of
/// a number right after it.
pub fn merge_batch(list: Vec<Issue>, batch: Vec<Issue>) -> (r: Vec<Issue>)
    ensures
        merged_from(list@ + batch@, r@),
        newest_first(r@),
{
    let ghost all = list@ + batch@;
    let mut pool = list;
    let mut rest = batch;
    pool.append(&mut rest);
    assert(pool@ == all);
    let mut sorted: Vec<Issue> = Vec::new();
    proof {
        vstd::seq_lib::to_multiset_len(sorted@);
        vstd::multiset::lemma_multiset_empty_len(sorted@.to_multiset());
    }
    assert(sorted@.to_multiset() =~= vstd::multiset::Multiset::<Issue>::empty());
    while pool.len() > 0
        invariant
            newest_first(sorted@),
            sorted@.to_multiset().add(pool@.to_multiset()) == all.to_multiset(),
        decreases pool.len(),
    {
        let ghost before = pool@;
        let issue = pool.pop().unwrap();
        proof {
            assert(before =~= pool@.push(issue));
            vstd::seq_lib::to_multiset_build(pool@, issue);
        }
        insert_newest_first(&mut sorted, issue);
        assert(sorted@.to_multiset().add(pool@.to_multiset()) =~= all.to_multiset());
    }
    proof {
        vstd::seq_lib::to_multiset_len(pool@);
        vstd::multiset::lemma_multiset_empty_len(pool@.to_multiset());
    }
    assert(pool@.to_multiset() =~= vstd::multiset::Multiset::<Issue>::empty());
    assert(sorted@.to_multiset() =~= all.to_multiset());
    let ghost s = sorted@;
    let total = sorted.len();
    assert(s.len() == total);
    let mut kept: Vec<Issue> = Vec::new();
    let mut previous: Option<u64> = None;
    let mut k: usize = 0;
    while sorted.len() > 0
        invariant
            k <= s.len(),
            sorted@ == s.skip(k as int),
            s.len() == k + sorted@.len(),
            s.len() <= usize::MAX,
            kept@ == dedup_numbers(s.take(k as int)),
            previous == (if k == 0 {
                None
            } else {
                Some(s[k - 1].number)
            }),
        decreases sorted.len(),
    {
        assert(s.take(k + 1).drop_last() =~= s.take(k as int));
        assert(sorted@[0] == s[k as int]);
        let issue = sorted.remove(0);
        assert(sorted@ =~= s.skip(k + 1));
        let number = issue.number;
        let repeat = match previous {
            Some(n) => n == number,
            None => false,
        };
        if !repeat {
            kept.push(issue);
        }
        previous = Some(number);
        k = k + 1;
    }
    assert(s.take(k as int) =~= s);
    proof {
        lemma_dedup_newest_first(s);
    }
    kept
}


/// How long a loaded list stays fresh, in milliseconds.
pub const CATALOG_FRESHNESS_MS: u64 = 60000;

/// What the catalog holds for one scope: the items loaded so far, when the
/// last load finished, whether a load is under way, and its error.
#[derive(Debug)]
pub struct ScopeState {
    pub issues: Option<Vec<Issue>>,
    pub loaded_at_ms: Option<u64>,
    pub pending: bool,
    pub error: Option<String>,
}

/// A scope with nothing loaded, nothing under way and no error.
pub open spec fn blank() -> ScopeState {
    ScopeState { issues: None, loaded_at_ms: None, pending: false, error: None }
}

/// A scope's list, when there is one, is newest first.
pub open spec fn scope_wf(s: ScopeState) -> bool {
    s.issues matches Some(v) ==> newest_first(v@)
}

/// The items of a list that may not exist yet.
pub open spec fn listed(issues: Option<Vec<Issue>>) -> Seq<Issue> {
    match issues {
        Some(v) => v@,
        None => Seq::empty(),
    }
}

/// A load finished within the freshness window before `now_ms`.
pub open spec fn fresh(s: ScopeState, now_ms: u64) -> bool {
    s.loaded_at_ms matches Some(t) && (if now_ms >= t {
        now_ms - t
    } else {
        0
    }) < CATALOG_FRESHNESS_MS
}

/// The generation after `g`, wrapping at the top.
pub open spec fn next_generation(g: u64) -> u64 {
    if g == u64::MAX {
        0
    } else {
        (g + 1) as u64
    }
}

/// A load the worker is asked to make.
#[derive(Debug)]
pub struct IssueRequest {
    pub generation: u64,
    pub root: String,
    pub scope: IssueScope,
}

/// What the worker reports of a load: a batch of items, or its end.
#[derive(Debug)]
pub enum IssueUpdate {
    Batch(Vec<Issue>),
    Finished(Result<(), String>),
}

/// A report of the worker, with the load it belongs to.
#[derive(Debug)]
pub struct IssueCompletion {
    pub generation: u64,
    pub root: String,
    pub scope: IssueScope,
    pub update: IssueUpdate,
}

/// The issues and pull requests of one repository, per scope, as loaded in
/// the background.
#[derive(Debug)]
pub struct IssueCatalog {
    pub root: Option<String>,
    pub generation: u64,
    pub scope: IssueScope,
    pub open: ScopeState,
    pub closed: ScopeState,
}

fn blank_scope() -> (r: ScopeState)
    ensures
        r == blank(),
{
    ScopeState { issues: None, loaded_at_ms: None, pending: false, error: None }
}

impl IssueCatalog {
    /// The state of one scope.
    pub open spec fn state(self, scope: IssueScope) -> ScopeState {
        match scope {
            IssueScope::Open => self.open,
            IssueScope::Closed => self.closed,
        }
    }

    pub open spec fn wf(self) -> bool {
        scope_wf(self.open) && scope_wf(self.closed)
    }

    /// The catalog belongs to the repository at `root`.
    pub open spec fn for_root(self, root: Seq<char>) -> bool {
        self.root matches Some(r) && r@ == root
    }

    /// The generation once the catalog is switched to `root`.
    pub open spec fn generation_for(self, root: Seq<char>) -> u64 {
        if self.for_root(root) {
            self.generation
        } else {
            next_generation(self.generation)
        }
    }

    /// The state of `scope` once the catalog is switched to `root`.
    pub open spec fn state_for(self, root: Seq<char>, scope: IssueScope) -> ScopeState {
        if self.for_root(root) {
            self.state(scope)
        } else {
            blank()
        }
    }

    pub fn new() -> (r: IssueCatalog)
        ensures
            r.root is None,
            r.generation == 0,
            r.scope == IssueScope::Open,
            r.open == blank(),
            r.closed == blank(),
            r.wf(),
    {
        IssueCatalog {
            root: None,
            generation: 0,
            scope: IssueScope::Open,
            open: blank_scope(),
            closed: blank_scope(),
        }
    }

    pub fn scope(&self) -> (r: IssueScope)
        ensures
            r == self.scope,
    {
        self.scope
    }

    /// Shows the other scope.
    pub fn toggle_scope(&mut self) -> (r: IssueScope)
        ensures
            final(self).scope == old(self).scope.spec_toggle(),
            r == final(self).scope,
            final(self).root == old(self).root,
            final(self).generation == old(self).generation,
            final(self).open == old(self).open,
            final(self).closed == old(self).closed,
    {
        self.scope = self.scope.toggle();
        self.scope
    }

    fn belongs_to(&self, root: &str) -> (r: bool)
        ensures
            r == self.for_root(root@),
    {
        match &self.root {
            Some(current) => crate::agent::str_eq(current.as_str(), root),
            None => false,
        }
    }

    /// Switches the catalog to `root`: another repository starts a new
    /// generation with nothing loaded.
    fn activate(&mut self, root: &str)
        ensures
            final(self).for_root(root@),
            final(self).generation == old(self).generation_for(root@),
            final(self).scope == old(self).scope,
            final(self).open == old(self).state_for(root@, IssueScope::Open),
            final(self).closed == old(self).state_for(root@, IssueScope::Closed),
    {
        if self.belongs_to(root) {
            return;
        }
        self.root = Some(root.to_string());
        self.generation = self.generation.wrapping_add(1);
        self.open = blank_scope();
        self.closed = blank_scope();
    }

    /// Asks for the shown scope's items of the repository at `root`, unless
    /// they were loaded within the freshness window or are being loaded. The
    /// scope's earlier items, load time and error are dropped when it asks.
    pub fn request(&mut self, root: &str, now_ms: u64) -> (r: Option<IssueRequest>)
        requires
            old(self).wf(),
        ensures
            final(self).wf(),
            final(self).for_root(root@),
            final(self).generation == old(self).generation_for(root@),
            final(self).scope == old(self).scope,
            final(self).state(old(self).scope.spec_toggle()) == old(self).state_for(
                root@,
                old(self).scope.spec_toggle(),
            ),
            ({
                let base = old(self).state_for(root@, old(self).scope);
                if fresh(base, now_ms) || base.pending {
                    r is None && final(self).state(old(self).scope) == base
                } else {
                    &&& r matches Some(q) && q.generation == final(self).generation && q.root@
                        == root@ && q.scope == old(self).scope
                    &&& final(self).state(old(self).scope) == (ScopeState {
                        issues: None,
                        loaded_at_ms: None,
                        pending: true,
                        error: None,
                    })
                }
            }),
    {
        self.activate(root);
        let scope = self.scope;
        let state = match scope {
            IssueScope::Open => &self.open,
            IssueScope::Closed => &self.closed,
        };
        let is_fresh = match state.loaded_at_ms {
            Some(loaded) => now_ms.saturating_sub(loaded) < CATALOG_FRESHNESS_MS,
            None => false,
        };
        if is_fresh || state.pending {
            return None;
        }
        let started = ScopeState { issues: None, loaded_at_ms: None, pending: true, error: None };
        match scope {
            IssueScope::Open => self.open = started,
            IssueScope::Closed => self.closed = started,
        }
        Some(IssueRequest { generation: self.generation, root: root.to_string(), scope })
    }

    /// Records that the worker could not take the request for `scope`.
    pub fn request_failed(&mut self, scope: IssueScope)
        requires
            old(self).wf(),
        ensures
            final(self).wf(),
            final(self).root == old(self).root,
            final(self).generation == old(self).generation,
            final(self).scope == old(self).scope,
            final(self).state(scope.spec_toggle()) == old(self).state(scope.spec_toggle()),
            final(self).state(scope).issues == old(self).state(scope).issues,
            final(self).state(scope).loaded_at_ms == old(self).state(scope).loaded_at_ms,
            !final(self).state(scope).pending,
            final(self).state(scope).error matches Some(e) && e@ == "GitHub issue worker stopped"@,
    {
        let message = String::from_str("GitHub issue worker stopped");
        match scope {
            IssueScope::Open => {
                self.open.pending = false;
                self.open.error = Some(message);
            },
            IssueScope::Closed => {
                self.closed.pending = false;
                self.closed.error = Some(message);
            },
        }
    }

    fn shown(&self) -> (r: &ScopeState)
        ensures
            *r == self.state(self.scope),
    {
        match self.scope {
            IssueScope::Open => &self.open,
            IssueScope::Closed => &self.closed,
        }
    }

    /// The shown scope's items, newest first, once any arrived.
    pub fn issues(&self) -> (r: Option<&[Issue]>)
        ensures
            match self.state(self.scope).issues {
                Some(v) => r matches Some(s) && s@ == v@,
                None => r is None,
            },
    {
        match &self.shown().issues {
            Some(v) => Some(v.as_slice()),
            None => None,
        }
    }

    /// The first shown item with `number`.
    pub fn issue(&self, number: u64) -> (r: Option<&Issue>)
        ensures
            r is None <==> !(exists|i: int|
                0 <= i < listed(self.state(self.scope).issues).len() && #[trigger] listed(
                    self.state(self.scope).issues,
                )[i].number == number),
            r matches Some(x) ==> exists|i: int|
                0 <= i < listed(self.state(self.scope).issues).len() && #[trigger] listed(
                    self.state(self.scope).issues,
                )[i] == *x && x.number == number && forall|j: int|
                    0 <= j < i ==> listed(self.state(self.scope).issues)[j].number != number,
    {
        match &self.shown().issues {
            Some(v) => {
                let mut i: usize = 0;
                while i < v.len()
                    invariant
                        i <= v.len(),
                        listed(self.state(self.scope).issues) == v@,
                        forall|j: int| 0 <= j < i ==> v@[j].number != number,
                    decreases v.len() - i,
                {
                    if v[i].number == number {
                        return Some(&v[i]);
                    }
                    i = i + 1;
                }
                None
            },
            None => None,
        }
    }

    /// Whether the shown scope is being loaded.
    pub fn loading(&self) -> (r: bool)
        ensures
            r == self.state(self.scope).pending,
    {
        self.shown().pending
    }

    /// The error of the shown scope's last load.
    pub fn error(&self) -> (r: Option<&str>)
        ensures
            match self.state(self.scope).error {
                Some(e) => r matches Some(s) && s@ == e@,
                None => r is None,
            },
    {
        match &self.shown().error {
            Some(e) => Some(e.as_str()),
            None => None,
        }
    }

    /// Takes in a report of the worker, at `now_ms`. A report of another
    /// repository or an earlier generation is ignored; a batch is merged into
    /// its scope's list, and the end of a load records when it finished or
    /// why it failed. Says whether anything changed.
    pub fn apply(&mut self, done: IssueCompletion, now_ms: u64) -> (r: bool)
        requires
            old(self).wf(),
        ensures
            final(self).wf(),
            !(done.generation == old(self).generation && old(self).for_root(done.root@)) ==> !r
                && *final(self) == *old(self),
            (done.generation == old(self).generation && old(self).for_root(done.root@)) ==> {
                &&& r
                &&& final(self).root == old(self).root
                &&& final(self).generation == old(self).generation
                &&& final(self).scope == old(self).scope
                &&& final(self).state(done.scope.spec_toggle()) == old(self).state(
                    done.scope.spec_toggle(),
                )
                &&& updated(old(self).state(done.scope), done.update, now_ms, final(self).state(done.scope))
            },
    {
        let current = match &self.root {
            Some(current) => crate::agent::str_eq(current.as_str(), done.root.as_str()),
            None => false,
        };
        if done.generation != self.generation || !current {
            return false;
        }
        match done.scope {
            IssueScope::Open => apply_update(&mut self.open, done.update, now_ms),
            IssueScope::Closed => apply_update(&mut self.closed, done.update, now_ms),
        }
        true
    }
}

/// `after` is `before` once `update` arrived at `now_ms`.
pub open spec fn updated(before: ScopeState, update: IssueUpdate, now_ms: u64, after: ScopeState) -> bool {
    match update {
        IssueUpdate::Batch(batch) => {
            &&& after.issues matches Some(v) && merged_from(listed(before.issues) + batch@, v@)
            &&& after.loaded_at_ms == before.loaded_at_ms
            &&& after.pending == before.pending
            &&& after.error == before.error
        },
        IssueUpdate::Finished(Ok(())) => after == ScopeState {
            issues: before.issues,
            loaded_at_ms: Some(now_ms),
            pending: false,
            error: None,
        },
        IssueUpdate::Finished(Err(e)) => after == ScopeState {
            issues: before.issues,
            loaded_at_ms: before.loaded_at_ms,
            pending: false,
            error: Some(e),
        },
    }
}

fn apply_update(state: &mut ScopeState, update: IssueUpdate, now_ms: u64)
    requires
        scope_wf(*old(state)),
    ensures
        scope_wf(*final(state)),
        updated(*old(state), update, now_ms, *final(state)),
{
    match update {
        IssueUpdate::Batch(batch) => {
            let list = match state.issues.take() {
                Some(v) => v,
                None => Vec::new(),
            };
            state.issues = Some(merge_batch(list, batch));
        },
        IssueUpdate::Finished(result) => {
            state.pending = false;
            match result {
                Ok(()) => {
                    state.loaded_at_ms = Some(now_ms);
                    state.error = None;
                },
                Err(error) => {
                    state.error = Some(error);
                },
            }
        },
    }
}

} // verus!
