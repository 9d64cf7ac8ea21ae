//! The header picker: a filterable, scrollable list of repositories,
//! worktrees, branches, diff targets or agent destinations. Paths are held as text.
use vstd::prelude::*;
use crate::agent::{clone_opt_string, opt_string_eq, opt_view};
use crate::input::{TextInput, add_signed, spec_add_signed};
use crate::text::{
    chars_of, contains_chars, contains_seq, lowercase, split_whitespace, string_of, to_lowercase,
    words, append_str,
};

verus! {

#[derive(Debug, Clone, Copy, PartialEq, Eq, Structural)]
pub enum HeaderPickerKind {
    Repositories,
    Worktrees,
    Branches,
    DiffTargets,
    AgentDestinations,
}

#[derive(Debug, Clone, Copy, PartialEq, Eq, Structural)]
pub enum AgentDestinationKind {
    Repository,
    Worktree,
}

#[derive(Debug, Clone, Copy, PartialEq, Eq, Structural)]
pub enum BranchPickerStep {
    Branches,
    Base,
    Name,
}

#[derive(Debug, Clone, Copy, PartialEq, Eq, Structural)]
pub enum RepositoryPickerStep {
    Repositories,
    Clone,
}

#[derive(Debug, Clone, Copy, PartialEq, Eq, Structural)]
pub enum CloneField {
    Directory,
    Url,
}

/// A branch offered by the picker.
#[derive(Debug)]
pub struct Branch {
    pub name: String,
}

impl Branch {
    pub fn duplicate(&self) -> (r: Self)
        ensures
            r == *self,
    {
        Branch { name: self.name.clone() }
    }
}

/// A linked worktree of the active repository.
#[derive(Debug)]
pub struct LinkedWorktree {
    pub path: String,
    pub branch: Option<String>,
}

/// What is known of a repository outside the picker.
#[derive(Debug)]
pub struct RepositoryPickerItem {
    pub common_dir: String,
    pub root: String,
    pub label: String,
    pub stats: Option<(u64, u64)>,
    pub branch: Option<String>,
}

#[derive(Debug)]
#[allow(inconsistent_fields)]
pub enum HeaderPickerItem {
    Repository {
        common_dir: String,
        path: String,
        label: String,
        stats: Option<(u64, u64)>,
        branch: Option<String>,
    },
    Worktree { worktree: LinkedWorktree, stats: Option<(u64, u64)> },
    Branch(Branch),
    BranchBase(Branch),
    DiffTarget(Branch),
    AgentDestination {
        path: String,
        repository: String,
        branch: String,
        kind: AgentDestinationKind,
    },
}

pub open spec fn or_empty(o: Option<String>) -> Seq<char> {
    match o {
        Some(s) => s@,
        None => seq![],
    }
}

impl HeaderPickerItem {
    pub fn duplicate(&self) -> (r: Self)
        ensures
            r == *self,
    {
        match self {
            HeaderPickerItem::Repository { common_dir, path, label, stats, branch } => {
                HeaderPickerItem::Repository {
                    common_dir: common_dir.clone(),
                    path: path.clone(),
                    label: label.clone(),
                    stats: *stats,
                    branch: clone_opt_string(branch),
                }
            },
            HeaderPickerItem::Worktree { worktree, stats } => HeaderPickerItem::Worktree {
                worktree: LinkedWorktree {
                    path: worktree.path.clone(),
                    branch: clone_opt_string(&worktree.branch),
                },
                stats: *stats,
            },
            HeaderPickerItem::Branch(b) => HeaderPickerItem::Branch(b.duplicate()),
            HeaderPickerItem::BranchBase(b) => HeaderPickerItem::BranchBase(b.duplicate()),
            HeaderPickerItem::DiffTarget(b) => HeaderPickerItem::DiffTarget(b.duplicate()),
            HeaderPickerItem::AgentDestination { path, repository, branch, kind } => {
                HeaderPickerItem::AgentDestination {
                    path: path.clone(),
                    repository: repository.clone(),
                    branch: branch.clone(),
                    kind: *kind,
                }
            },
        }
    }

    /// The text the filter searches.
    pub open spec fn spec_searchable_text(self) -> Seq<char> {
        match self {
            HeaderPickerItem::Repository { path, label, branch, .. } => label@ + " "@ + path@
                + " "@ + or_empty(branch),
            HeaderPickerItem::Worktree { worktree, .. } => worktree.path@ + " "@ + or_empty(
                worktree.branch,
            ),
            HeaderPickerItem::Branch(b) => b.name@,
            HeaderPickerItem::BranchBase(b) => b.name@,
            HeaderPickerItem::DiffTarget(b) => b.name@,
            HeaderPickerItem::AgentDestination { path, repository, branch, .. } => path@ + " "@
                + repository@ + " "@ + branch@,
        }
    }

    pub fn searchable_text(&self) -> (r: String)
        ensures
            r@ == self.spec_searchable_text(),
    {
        let mut s = String::new();
        match self {
            HeaderPickerItem::Repository { path, label, branch, .. } => {
                append_str(&mut s, label.as_str());
                append_str(&mut s, " ");
                append_str(&mut s, path.as_str());
                append_str(&mut s, " ");
                if let Some(b) = branch {
                    append_str(&mut s, b.as_str());
                }
            },
            HeaderPickerItem::Worktree { worktree, .. } => {
                append_str(&mut s, worktree.path.as_str());
                append_str(&mut s, " ");
                if let Some(b) = &worktree.branch {
                    append_str(&mut s, b.as_str());
                }
            },
            HeaderPickerItem::Branch(b) | HeaderPickerItem::BranchBase(b)
            | HeaderPickerItem::DiffTarget(b) => {
                append_str(&mut s, b.name.as_str());
            },
            HeaderPickerItem::AgentDestination { path, repository, branch, .. } => {
                append_str(&mut s, path.as_str());
                append_str(&mut s, " ");
                append_str(&mut s, repository.as_str());
                append_str(&mut s, " ");
                append_str(&mut s, branch.as_str());
            },
        }
        proof {
            reveal_strlit(" ");
        }
        assert(s@ =~= self.spec_searchable_text());
        s
    }

    /// The searchable text in lowercase.
    pub fn normalized_search_text(&self) -> (r: String)
        ensures
            r@ == lowercase(self.spec_searchable_text()),
    {
        let t = self.searchable_text();
        to_lowercase(t.as_str())
    }
}

/// A worktree's change counts that the background loader produced.
pub struct ChangeDetailsCompletion {
    pub index: usize,
    pub path: String,
    pub stats: Option<(u64, u64)>,
}

/// What the clone worker has to report.
pub enum ClonePoll {
    Empty,
    Received(Result<String, String>),
    Disconnected,
}

/// A piece of `b` is a piece of any text that holds `b`.
pub proof fn lemma_contains_within(a: Seq<char>, b: Seq<char>, c: Seq<char>, term: Seq<char>)
    requires
        contains_seq(b, term),
    ensures
        contains_seq(a + b + c, term),
{
    let i = choose|i: int| crate::text::occurs_at(b, term, i);
    let hay = a + b + c;
    assert(hay.subrange(a.len() + i, a.len() + i + term.len()) =~= b.subrange(i, i + term.len()));
    assert(crate::text::occurs_at(hay, term, a.len() + i));
}

/// The texts an item shows: its label, path, branch, repository or name.
pub open spec fn shown_fields(item: HeaderPickerItem) -> Seq<Seq<char>> {
    match item {
        HeaderPickerItem::Repository { path, label, branch, .. } => seq![label@, path@, or_empty(branch)],
        HeaderPickerItem::Worktree { worktree, .. } => seq![worktree.path@, or_empty(worktree.branch)],
        HeaderPickerItem::Branch(b) => seq![b.name@],
        HeaderPickerItem::BranchBase(b) => seq![b.name@],
        HeaderPickerItem::DiffTarget(b) => seq![b.name@],
        HeaderPickerItem::AgentDestination { path, repository, branch, .. } => seq![
            path@,
            repository@,
            branch@,
        ],
    }
}

/// The filter finds an item by any piece of any text it shows: a worktree
/// by its path or its branch, a repository by its label, path or branch.
pub proof fn lemma_searchable_text_holds_shown_fields(item: HeaderPickerItem, term: Seq<char>, f: int)
    requires
        0 <= f < shown_fields(item).len(),
        contains_seq(shown_fields(item)[f], term),
    ensures
        contains_seq(item.spec_searchable_text(), term),
{
    let e: Seq<char> = seq![];
    let text = item.spec_searchable_text();
    match item {
        HeaderPickerItem::Repository { path, label, branch, .. } => {
            let br = or_empty(branch);
            if f == 0 {
                assert(text =~= e + label@ + (" "@ + path@ + " "@ + br));
                lemma_contains_within(e, label@, " "@ + path@ + " "@ + br, term);
            } else if f == 1 {
                assert(text =~= (label@ + " "@) + path@ + (" "@ + br));
                lemma_contains_within(label@ + " "@, path@, " "@ + br, term);
            } else {
                assert(text =~= (label@ + " "@ + path@ + " "@) + br + e);
                lemma_contains_within(label@ + " "@ + path@ + " "@, br, e, term);
            }
        },
        HeaderPickerItem::Worktree { worktree, .. } => {
            let br = or_empty(worktree.branch);
            if f == 0 {
                assert(text =~= e + worktree.path@ + (" "@ + br));
                lemma_contains_within(e, worktree.path@, " "@ + br, term);
            } else {
                assert(text =~= (worktree.path@ + " "@) + br + e);
                lemma_contains_within(worktree.path@ + " "@, br, e, term);
            }
        },
        HeaderPickerItem::Branch(b) | HeaderPickerItem::BranchBase(b) | HeaderPickerItem::DiffTarget(b) => {
            assert(text =~= e + b.name@ + e);
            lemma_contains_within(e, b.name@, e, term);
        },
        HeaderPickerItem::AgentDestination { path, repository, branch, .. } => {
            if f == 0 {
                assert(text =~= e + path@ + (" "@ + repository@ + " "@ + branch@));
                lemma_contains_within(e, path@, " "@ + repository@ + " "@ + branch@, term);
            } else if f == 1 {
                assert(text =~= (path@ + " "@) + repository@ + (" "@ + branch@));
                lemma_contains_within(path@ + " "@, repository@, " "@ + branch@, term);
            } else {
                assert(text =~= (path@ + " "@ + repository@ + " "@) + branch@ + e);
                lemma_contains_within(path@ + " "@ + repository@ + " "@, branch@, e, term);
            }
        },
    }
}

/// A worktree with a branch is found by any piece of its branch name.
pub proof fn lemma_worktree_found_by_branch(worktree: LinkedWorktree, stats: Option<(u64, u64)>, term: Seq<char>)
    requires
        worktree.branch is Some,
        contains_seq(worktree.branch->0@, term),
    ensures
        contains_seq((HeaderPickerItem::Worktree { worktree, stats }).spec_searchable_text(), term),
{
    lemma_searchable_text_holds_shown_fields(HeaderPickerItem::Worktree { worktree, stats }, term, 1);
}

/// Whether every term occurs in `searchable`.
pub open spec fn matches_terms(searchable: Seq<char>, terms: Seq<Seq<char>>) -> bool {
    forall|t: int| 0 <= t < terms.len() ==> contains_seq(searchable, #[trigger] terms[t])
}

/// The items whose searchable text holds every term, in order.
pub open spec fn filtered(
    items: Seq<HeaderPickerItem>,
    searchable: Seq<Seq<char>>,
    terms: Seq<Seq<char>>,
) -> Seq<HeaderPickerItem>
    decreases items.len(),
{
    if items.len() == 0 {
        seq![]
    } else {
        let rest = filtered(items.drop_last(), searchable, terms);
        if matches_terms(searchable[items.len() - 1], terms) {
            rest.push(items.last())
        } else {
            rest
        }
    }
}

/// The search terms of a query: its words, in lowercase.
pub open spec fn query_terms(query: Seq<char>) -> Seq<Seq<char>> {
    words(query).map_values(|w: Seq<char>| lowercase(w))
}

/// The picker's item after a worktree's change counts arrive.
pub open spec fn with_worktree_stats(
    item: HeaderPickerItem,
    path: Seq<char>,
    stats: Option<(u64, u64)>,
) -> (HeaderPickerItem, bool) {
    match item {
        HeaderPickerItem::Worktree { worktree, stats: item_stats } => if worktree.path@ == path
            && stats is Some && item_stats != stats {
            (HeaderPickerItem::Worktree { worktree, stats }, true)
        } else {
            (item, false)
        },
        _ => (item, false),
    }
}

/// The last detail recorded for a repository's common directory.
pub open spec fn detail_for(details: Seq<RepositoryPickerItem>, common_dir: Seq<char>) -> Option<
    RepositoryPickerItem,
>
    decreases details.len(),
{
    if details.len() == 0 {
        None
    } else if details.last().common_dir@ == common_dir {
        Some(details.last())
    } else {
        detail_for(details.drop_last(), common_dir)
    }
}

/// A repository item refreshed from its detail: the item, whether it changed,
/// and whether its searchable text changed.
pub open spec fn refreshed(item: HeaderPickerItem, details: Seq<RepositoryPickerItem>) -> (
    HeaderPickerItem,
    bool,
    bool,
) {
    match item {
        HeaderPickerItem::Repository { common_dir, path, label, stats, branch } => match detail_for(
            details,
            common_dir@,
        ) {
            Some(d) => {
                let label_changed = label@ != d.label@;
                let stats_changed = d.stats is Some && stats != d.stats;
                let branch_changed = opt_view(branch) != opt_view(d.branch);
                (
                    HeaderPickerItem::Repository {
                        common_dir,
                        path,
                        label: if label_changed {
                            d.label
                        } else {
                            label
                        },
                        stats: if stats_changed {
                            d.stats
                        } else {
                            stats
                        },
                        branch: if branch_changed {
                            d.branch
                        } else {
                            branch
                        },
                    },
                    label_changed || stats_changed || branch_changed,
                    label_changed || branch_changed,
                )
            },
            None => (item, false, false),
        },
        _ => (item, false, false),
    }
}

/// A repository item's searchable text, as seen through views.
pub open spec fn same_item_text(a: HeaderPickerItem, b: HeaderPickerItem) -> bool {
    a.spec_searchable_text() == b.spec_searchable_text()
}

fn last_detail<'a>(details: &'a Vec<RepositoryPickerItem>, common_dir: &String) -> (r: Option<
    &'a RepositoryPickerItem,
>)
    ensures
        match (r, detail_for(details@, common_dir@)) {
            (Some(a), Some(b)) => *a == b,
            (None, None) => true,
            _ => false,
        },
{
    let mut i = details.len();
    assert(details@.take(details.len() as int) =~= details@);
    while i > 0
        invariant
            i <= details.len(),
            detail_for(details@, common_dir@) == detail_for(details@.take(i as int), common_dir@),
        decreases i,
    {
        let ghost prefix = details@.take(i as int);
        assert(prefix.drop_last() =~= details@.take(i - 1));
        if details[i - 1].common_dir == *common_dir {
            return Some(&details[i - 1]);
        }
        i = i - 1;
    }
    assert(details@.take(0) =~= seq![]);
    None
}

fn refresh_item(item: &HeaderPickerItem, details: &Vec<RepositoryPickerItem>) -> (r: (
    HeaderPickerItem,
    bool,
    bool,
))
    ensures
        r == refreshed(*item, details@),
{
    match item {
        HeaderPickerItem::Repository { common_dir, path, label, stats, branch } => {
            match last_detail(details, common_dir) {
                Some(d) => {
                    let label_changed = !(*label == d.label);
                    let stats_changed = d.stats.is_some() && *stats != d.stats;
                    let branch_changed = !opt_string_eq(branch, &d.branch);
                    (
                        HeaderPickerItem::Repository {
                            common_dir: common_dir.clone(),
                            path: path.clone(),
                            label: if label_changed {
                                d.label.clone()
                            } else {
                                label.clone()
                            },
                            stats: if stats_changed {
                                d.stats
                            } else {
                                *stats
                            },
                            branch: if branch_changed {
                                clone_opt_string(&d.branch)
                            } else {
                                clone_opt_string(branch)
                            },
                        },
                        label_changed || stats_changed || branch_changed,
                        label_changed || branch_changed,
                    )
                },
                None => (item.duplicate(), false, false),
            }
        },
        _ => (item.duplicate(), false, false),
    }
}

/// The items after refreshing every repository from `details`, with whether any
/// item changed and whether any searchable text changed.
pub fn update_repository_details(
    items: &mut Vec<HeaderPickerItem>,
    details: &Vec<RepositoryPickerItem>,
) -> (r: (bool, bool))
    ensures
        final(items)@.len() == old(items)@.len(),
        forall|i: int|
            0 <= i < old(items)@.len() ==> #[trigger] final(items)@[i] == refreshed(
                old(items)@[i],
                details@,
            ).0,
        r.0 == exists|i: int|
            0 <= i < old(items)@.len() && #[trigger] refreshed(old(items)@[i], details@).1,
        r.1 == exists|i: int|
            0 <= i < old(items)@.len() && #[trigger] refreshed(old(items)@[i], details@).2,
{
    let ghost start = items@;
    let mut changed = false;
    let mut searchable_changed = false;
    let mut i: usize = 0;
    while i < items.len()
        invariant
            i <= items.len(),
            items@.len() == start.len(),
            forall|j: int| i <= j < start.len() ==> #[trigger] items@[j] == start[j],
            forall|j: int| 0 <= j < i ==> #[trigger] items@[j] == refreshed(start[j], details@).0,
            changed == exists|j: int| 0 <= j < i && #[trigger] refreshed(start[j], details@).1,
            searchable_changed == exists|j: int|
                0 <= j < i && #[trigger] refreshed(start[j], details@).2,
        decreases items.len() - i,
    {
        let (updated, c, sc) = refresh_item(&items[i], details);
        proof {
            if c {
                assert(refreshed(start[i as int], details@).1);
            }
            if sc {
                assert(refreshed(start[i as int], details@).2);
            }
        }
        if c {
            changed = true;
        }
        if sc {
            searchable_changed = true;
        }
        items.set(i, updated);
        i = i + 1;
    }
    (changed, searchable_changed)
}

/// Records the change counts of the worktree at `path`; reports whether any item changed.
pub fn update_worktree_stats(
    items: &mut Vec<HeaderPickerItem>,
    path: &String,
    stats: Option<(u64, u64)>,
) -> (r: bool)
    ensures
        final(items)@.len() == old(items)@.len(),
        forall|i: int|
            0 <= i < old(items)@.len() ==> #[trigger] final(items)@[i] == with_worktree_stats(
                old(items)@[i],
                path@,
                stats,
            ).0,
        r == exists|i: int|
            0 <= i < old(items)@.len() && #[trigger] with_worktree_stats(
                old(items)@[i],
                path@,
                stats,
            ).1,
{
    let ghost start = items@;
    let mut changed = false;
    let mut i: usize = 0;
    while i < items.len()
        invariant
            i <= items.len(),
            items@.len() == start.len(),
            forall|j: int| i <= j < start.len() ==> #[trigger] items@[j] == start[j],
            forall|j: int|
                0 <= j < i ==> #[trigger] items@[j] == with_worktree_stats(start[j], path@, stats).0,
            changed == exists|j: int|
                0 <= j < i && #[trigger] with_worktree_stats(start[j], path@, stats).1,
        decreases items.len() - i,
    {
        let (updated, item_changed) = update_worktree_item(&items[i], path, stats);
        if item_changed {
            changed = true;
        }
        items.set(i, updated);
        i = i + 1;
    }
    changed
}

fn update_worktree_item(item: &HeaderPickerItem, path: &String, stats: Option<(u64, u64)>) -> (r: (
    HeaderPickerItem,
    bool,
))
    ensures
        r == with_worktree_stats(*item, path@, stats),
{
    match item {
        HeaderPickerItem::Worktree { worktree, stats: item_stats } => {
            if worktree.path == *path && stats.is_some() && *item_stats != stats {
                (
                    HeaderPickerItem::Worktree {
                        worktree: LinkedWorktree {
                            path: worktree.path.clone(),
                            branch: clone_opt_string(&worktree.branch),
                        },
                        stats,
                    },
                    true,
                )
            } else {
                (item.duplicate(), false)
            }
        },
        _ => (item.duplicate(), false),
    }
}

/// Records the change counts at `index` only, if that item is the worktree at `path`.
pub fn update_worktree_stats_at(
    items: &mut Vec<HeaderPickerItem>,
    index: usize,
    path: &String,
    stats: Option<(u64, u64)>,
) -> (r: bool)
    ensures
        index >= old(items)@.len() ==> final(items)@ == old(items)@ && !r,
        index < old(items)@.len() ==> final(items)@ == old(items)@.update(
            index as int,
            with_worktree_stats(old(items)@[index as int], path@, stats).0,
        ) && r == with_worktree_stats(old(items)@[index as int], path@, stats).1,
{
    if index >= items.len() {
        return false;
    }
    let (updated, changed) = update_worktree_item(&items[index], path, stats);
    items.set(index, updated);
    changed
}

/// The header picker's state.
pub struct HeaderPicker {
    pub kind: Option<HeaderPickerKind>,
    pub items: Vec<HeaderPickerItem>,
    pub all_items: Vec<HeaderPickerItem>,
    pub searchable_items: Vec<String>,
    pub default_selected: usize,
    pub searchable: bool,
    pub selected: usize,
    pub scroll: usize,
    pub viewport_rows: usize,
    pub scroll_follows_selection: bool,
    pub message: Option<String>,
    pub query: TextInput,
    pub branch_step: BranchPickerStep,
    pub branch_base: Option<Branch>,
    pub branch_name: TextInput,
    pub repository_step: RepositoryPickerStep,
    pub clone_directory: TextInput,
    pub clone_url: TextInput,
    pub clone_field: CloneField,
    /// A clone is running in the background.
    pub clone_running: bool,
    /// Change counts are loading in the background.
    pub change_details_pending: bool,
}

/// The last scroll offset that still fills the viewport.
pub open spec fn max_scroll(len: nat, rows: nat) -> nat {
    if len > rows {
        (len - rows) as nat
    } else {
        0
    }
}

impl HeaderPicker {
    /// The picker's invariant: the searchable texts follow the items, the
    /// selection is an item (or 0 when there is none), and the scroll offset
    /// leaves no empty rows.
    pub open spec fn wf(&self) -> bool {
        &&& self.searchable_items@.len() == self.all_items@.len()
        &&& forall|i: int|
            0 <= i < self.all_items@.len() ==> #[trigger] self.searchable_items@[i]@ == lowercase(
                self.all_items@[i].spec_searchable_text(),
            )
        &&& (self.items@.len() == 0 ==> self.selected == 0)
        &&& (self.items@.len() > 0 ==> self.selected < self.items@.len())
        &&& self.scroll <= max_scroll(self.items@.len(), self.viewport_rows as nat)
    }

    /// Whether the selected item is on screen.
    pub open spec fn selection_visible(&self) -> bool {
        self.scroll <= self.selected < self.scroll + self.viewport_rows
    }

    pub fn new() -> (r: Self)
        ensures
            r.wf(),
            r.kind is None,
    {
        HeaderPicker {
            kind: None,
            items: Vec::new(),
            all_items: Vec::new(),
            searchable_items: Vec::new(),
            default_selected: 0,
            searchable: false,
            selected: 0,
            scroll: 0,
            viewport_rows: 0,
            scroll_follows_selection: false,
            message: None,
            query: TextInput::new(),
            branch_step: BranchPickerStep::Branches,
            branch_base: None,
            branch_name: TextInput::new(),
            repository_step: RepositoryPickerStep::Repositories,
            clone_directory: TextInput::new(),
            clone_url: TextInput::new(),
            clone_field: CloneField::Directory,
            clone_running: false,
            change_details_pending: false,
        }
    }

    fn searchable_texts(items: &Vec<HeaderPickerItem>) -> (r: Vec<String>)
        ensures
            r@.len() == items@.len(),
            forall|i: int|
                0 <= i < items@.len() ==> #[trigger] r@[i]@ == lowercase(
                    items@[i].spec_searchable_text(),
                ),
    {
        let mut out: Vec<String> = Vec::new();
        let mut i: usize = 0;
        while i < items.len()
            invariant
                i <= items.len(),
                out@.len() == i,
                forall|j: int|
                    0 <= j < i ==> #[trigger] out@[j]@ == lowercase(items@[j].spec_searchable_text()),
            decreases items.len() - i,
        {
            out.push(items[i].normalized_search_text());
            i = i + 1;
        }
        out
    }

    fn duplicate_items(items: &Vec<HeaderPickerItem>) -> (r: Vec<HeaderPickerItem>)
        ensures
            r@ == items@,
    {
        let mut out: Vec<HeaderPickerItem> = Vec::new();
        let mut i: usize = 0;
        while i < items.len()
            invariant
                i <= items.len(),
                out@ == items@.take(i as int),
            decreases items.len() - i,
        {
            out.push(items[i].duplicate());
            assert(out@ =~= items@.take(i + 1));
            i = i + 1;
        }
        assert(items@.take(items.len() as int) =~= items@);
        out
    }

    /// Opens the picker on `items` with `selected` preselected (held to the list).
    pub fn open(&mut self, kind: HeaderPickerKind, items: Vec<HeaderPickerItem>, selected: usize)
        ensures
            final(self).wf(),
            final(self).kind == Some(kind),
            final(self).items@ == items@,
            final(self).all_items@ == items@,
            final(self).default_selected == (if items@.len() == 0 {
                0
            } else if selected < items@.len() {
                selected
            } else {
                (items@.len() - 1) as usize
            }),
            final(self).selected == final(self).default_selected,
            final(self).scroll == 0,
            final(self).viewport_rows == 0,
            final(self).searchable,
            final(self).message is None,
            final(self).query.text@.len() == 0,
            final(self).query.focused,
            final(self).branch_step == BranchPickerStep::Branches,
            final(self).branch_base is None,
            final(self).repository_step == RepositoryPickerStep::Repositories,
            final(self).clone_field == CloneField::Directory,
            !final(self).change_details_pending,
    {
        self.change_details_pending = false;
        self.kind = Some(kind);
        let last = if items.len() == 0 { 0 } else { items.len() - 1 };
        self.default_selected = if selected < last { selected } else { last };
        self.searchable = true;
        self.selected = self.default_selected;
        self.scroll = 0;
        self.viewport_rows = 0;
        self.scroll_follows_selection = true;
        self.searchable_items = Self::searchable_texts(&items);
        self.items = Self::duplicate_items(&items);
        self.all_items = items;
        self.message = None;
        self.query.clear();
        self.query.focus();
        self.branch_step = BranchPickerStep::Branches;
        self.branch_base = None;
        self.branch_name.clear();
        self.repository_step = RepositoryPickerStep::Repositories;
        self.clone_field = CloneField::Directory;
        self.clone_directory.clear();
        self.clone_url.clear();
    }

    /// Opens the picker on a message instead of items.
    pub fn open_message(&mut self, kind: HeaderPickerKind, message: String)
        ensures
            final(self).wf(),
            final(self).kind == Some(kind),
            final(self).items@.len() == 0,
            final(self).all_items@.len() == 0,
            !final(self).searchable,
            final(self).message == Some(message),
            final(self).query.text@.len() == 0,
            final(self).query.focused,
            final(self).branch_step == BranchPickerStep::Branches,
            final(self).repository_step == RepositoryPickerStep::Repositories,
            !final(self).change_details_pending,
    {
        self.change_details_pending = false;
        self.kind = Some(kind);
        self.items.clear();
        self.all_items.clear();
        self.searchable_items.clear();
        self.default_selected = 0;
        self.searchable = false;
        self.selected = 0;
        self.scroll = 0;
        self.viewport_rows = 0;
        self.scroll_follows_selection = true;
        self.message = Some(message);
        self.query.clear();
        self.query.focus();
        self.branch_step = BranchPickerStep::Branches;
        self.branch_base = None;
        self.branch_name.clear();
        self.repository_step = RepositoryPickerStep::Repositories;
        self.clone_field = CloneField::Directory;
        self.clone_directory.clear();
        self.clone_url.clear();
    }

    /// Opens the branch picker on the bases a new branch can start from.
    pub fn open_branch_bases(&mut self, items: Vec<HeaderPickerItem>, selected: usize)
        ensures
            final(self).wf(),
            final(self).kind == Some(HeaderPickerKind::Branches),
            final(self).items@ == items@,
            final(self).all_items@ == items@,
            final(self).selected == final(self).default_selected,
            final(self).default_selected == (if items@.len() == 0 {
                0
            } else if selected < items@.len() {
                selected
            } else {
                (items@.len() - 1) as usize
            }),
            final(self).branch_step == BranchPickerStep::Base,
            final(self).branch_base is None,
            final(self).searchable,
            final(self).repository_step == old(self).repository_step,
    {
        self.change_details_pending = false;
        self.kind = Some(HeaderPickerKind::Branches);
        let last = if items.len() == 0 { 0 } else { items.len() - 1 };
        self.default_selected = if selected < last { selected } else { last };
        self.searchable = true;
        self.selected = self.default_selected;
        self.scroll = 0;
        self.viewport_rows = 0;
        self.scroll_follows_selection = true;
        self.searchable_items = Self::searchable_texts(&items);
        self.items = Self::duplicate_items(&items);
        self.all_items = items;
        self.message = None;
        self.query.clear();
        self.query.focus();
        self.branch_step = BranchPickerStep::Base;
        self.branch_base = None;
        self.branch_name.clear();
    }

    /// Asks for the name of a new branch started from `base`.
    pub fn open_branch_name(&mut self, base: Branch)
        ensures
            final(self).wf(),
            final(self).kind == Some(HeaderPickerKind::Branches),
            final(self).items@.len() == 0,
            final(self).branch_step == BranchPickerStep::Name,
            final(self).branch_base == Some(base),
            final(self).branch_name.text@.len() == 0,
            final(self).branch_name.focused,
            !final(self).searchable,
            final(self).repository_step == old(self).repository_step,
    {
        self.change_details_pending = false;
        self.kind = Some(HeaderPickerKind::Branches);
        self.selected = 0;
        self.scroll = 0;
        self.viewport_rows = 0;
        self.scroll_follows_selection = true;
        self.items.clear();
        self.all_items.clear();
        self.searchable_items.clear();
        self.default_selected = 0;
        self.searchable = false;
        self.message = None;
        self.query.clear();
        self.branch_step = BranchPickerStep::Name;
        self.branch_base = Some(base);
        self.branch_name.clear();
        self.branch_name.focus();
    }

    pub fn close(&mut self)
        ensures
            final(self).wf(),
            final(self).kind is None,
            final(self).items@.len() == 0,
            final(self).all_items@.len() == 0,
            final(self).message is None,
            final(self).branch_step == BranchPickerStep::Branches,
            final(self).repository_step == RepositoryPickerStep::Repositories,
            !final(self).change_details_pending,
    {
        self.change_details_pending = false;
        self.kind = None;
        self.items.clear();
        self.all_items.clear();
        self.searchable_items.clear();
        self.default_selected = 0;
        self.searchable = false;
        self.selected = 0;
        self.scroll = 0;
        self.viewport_rows = 0;
        self.scroll_follows_selection = true;
        self.message = None;
        self.query.clear();
        self.branch_step = BranchPickerStep::Branches;
        self.branch_base = None;
        self.branch_name.clear();
        self.repository_step = RepositoryPickerStep::Repositories;
        self.clone_field = CloneField::Directory;
        self.clone_directory.clear();
        self.clone_url.clear();
    }

    pub fn is_open(&self) -> (r: bool)
        ensures
            r == self.kind is Some,
    {
        self.kind.is_some()
    }

    pub fn naming_branch(&self) -> (r: bool)
        ensures
            r == (self.kind == Some(HeaderPickerKind::Branches) && self.branch_step
                == BranchPickerStep::Name),
    {
        self.kind == Some(HeaderPickerKind::Branches) && self.branch_step == BranchPickerStep::Name
    }

    pub fn cloning_repository(&self) -> (r: bool)
        ensures
            r == (self.kind == Some(HeaderPickerKind::Repositories) && self.repository_step
                == RepositoryPickerStep::Clone),
    {
        self.kind == Some(HeaderPickerKind::Repositories) && self.repository_step
            == RepositoryPickerStep::Clone
    }

    /// Whether typing goes to the filter query.
    pub fn filtering(&self) -> (r: bool)
        ensures
            r == (self.kind is Some && self.searchable && !(self.kind == Some(
                HeaderPickerKind::Branches,
            ) && self.branch_step == BranchPickerStep::Name) && !(self.kind == Some(
                HeaderPickerKind::Repositories,
            ) && self.repository_step == RepositoryPickerStep::Clone)),
    {
        self.is_open() && self.searchable && !self.naming_branch() && !self.cloning_repository()
    }

    /// Starts the clone form with `directory` filled in.
    pub fn begin_clone(&mut self, directory: &str)
        ensures
            final(self).repository_step == RepositoryPickerStep::Clone,
            final(self).clone_directory.text@ == directory@,
            final(self).clone_directory.focused,
            final(self).clone_url.text@.len() == 0,
            final(self).clone_field == CloneField::Directory,
            final(self).message is None,
            final(self).kind == old(self).kind,
            final(self).items@ == old(self).items@,
            final(self).all_items@ == old(self).all_items@,
            final(self).searchable_items@ == old(self).searchable_items@,
            final(self).selected == old(self).selected,
            final(self).scroll == old(self).scroll,
            final(self).viewport_rows == old(self).viewport_rows,
    {
        self.repository_step = RepositoryPickerStep::Clone;
        self.clone_directory.set(directory.to_owned());
        self.clone_directory.focus();
        self.clone_url.clear();
        self.clone_field = CloneField::Directory;
        self.message = None;
    }

    pub fn set_clone_field(&mut self, field: CloneField)
        ensures
            final(self).clone_field == field,
            field == CloneField::Directory ==> final(self).clone_directory.focused
                && final(self).clone_url == old(self).clone_url,
            field == CloneField::Url ==> final(self).clone_url.focused && final(self).clone_directory
                == old(self).clone_directory,
            final(self).clone_directory.text@ == old(self).clone_directory.text@,
            final(self).clone_url.text@ == old(self).clone_url.text@,
    {
        self.clone_field = field;
        match field {
            CloneField::Directory => self.clone_directory.focus(),
            CloneField::Url => self.clone_url.focus(),
        }
    }

    /// The clone field that has the focus.
    pub fn clone_input(&self) -> (r: &TextInput)
        ensures
            self.clone_field == CloneField::Directory ==> *r == self.clone_directory,
            self.clone_field == CloneField::Url ==> *r == self.clone_url,
    {
        match self.clone_field {
            CloneField::Directory => &self.clone_directory,
            CloneField::Url => &self.clone_url,
        }
    }

    /// Types `value` into the clone field that has the focus.
    pub fn insert_into_clone_input(&mut self, value: &str)
        ensures
            old(self).clone_field == CloneField::Directory ==> final(self).clone_directory.text@ == old(self).clone_directory.text@ + value@ && final(self).clone_url == old(self).clone_url,
            old(self).clone_field == CloneField::Url ==> final(self).clone_url.text@ == old(self).clone_url.text@ + value@ && final(self).clone_directory == old(self).clone_directory,
            final(self).clone_field == old(self).clone_field,
    {
        match self.clone_field {
            CloneField::Directory => self.clone_directory.insert(value),
            CloneField::Url => self.clone_url.insert(value),
        }
    }

    pub fn clone_running(&self) -> (r: bool)
        ensures
            r == self.clone_running,
    {
        self.clone_running
    }

    /// Starts a clone unless one is running; the caller runs it in the background.
    pub fn start_clone(&mut self) -> (r: bool)
        ensures
            r == !old(self).clone_running,
            final(self).clone_running,
    {
        if self.clone_running {
            return false;
        }
        self.clone_running = true;
        true
    }

    /// The outcome of the clone worker, once it has one.
    pub fn poll_clone(&mut self, poll: ClonePoll) -> (r: Option<Result<String, String>>)
        ensures
            !old(self).clone_running ==> r is None && final(self).clone_running == false,
            old(self).clone_running ==> match poll {
                ClonePoll::Empty => r is None && final(self).clone_running,
                ClonePoll::Received(result) => r == Some(result) && !final(self).clone_running,
                ClonePoll::Disconnected => r matches Some(Err(e)) && e@
                    == "repository clone worker stopped"@ && !final(self).clone_running,
            },
    {
        if !self.clone_running {
            return None;
        }
        let result = match poll {
            ClonePoll::Empty => return None,
            ClonePoll::Received(result) => result,
            ClonePoll::Disconnected => {
                proof {
                    reveal_strlit("repository clone worker stopped");
                }
                Err(String::from_str("repository clone worker stopped"))
            },
        };
        self.clone_running = false;
        Some(result)
    }

    /// The largest useful scroll offset.
    pub fn maximum_scroll(&self) -> (r: usize)
        ensures
            r == max_scroll(self.items@.len(), self.viewport_rows as nat),
    {
        self.items.len().saturating_sub(self.viewport_rows)
    }

    pub fn visible_start(&self) -> (r: usize)
        ensures
            r == self.scroll,
    {
        self.scroll
    }

    /// The first row shown once the list scrolls just enough to show the
    /// selection: up to a selection above the view, down so that a selection
    /// below it is the last row shown, and never past the end of the list.
    /// Without rows the view stays.
    pub open spec fn scrolled_to_selection(selected: int, scroll: int, rows: int, len: nat) -> int {
        if rows == 0 {
            scroll
        } else {
            let end = if scroll + rows > usize::MAX {
                usize::MAX as int
            } else {
                scroll + rows
            };
            let wanted = if selected < scroll {
                selected
            } else if selected >= end {
                let next = if selected + 1 > usize::MAX {
                    usize::MAX as int
                } else {
                    selected + 1
                };
                if next - rows < 0 {
                    0
                } else {
                    next - rows
                }
            } else {
                scroll
            };
            if wanted > max_scroll(len, rows as nat) {
                max_scroll(len, rows as nat) as int
            } else {
                wanted
            }
        }
    }

    /// Scrolls just enough to show the selection.
    pub fn ensure_selection_visible(&mut self)
        requires
            old(self).wf(),
        ensures
            final(self).wf(),
            final(self).selected == old(self).selected,
            final(self).items@ == old(self).items@,
            final(self).all_items@ == old(self).all_items@,
            final(self).searchable_items@ == old(self).searchable_items@,
            final(self).viewport_rows == old(self).viewport_rows,
            final(self).scroll_follows_selection == old(self).scroll_follows_selection,
            final(self).query == old(self).query,
            final(self).kind == old(self).kind,
            final(self).default_selected == old(self).default_selected,
            old(self).viewport_rows > 0 && old(self).items@.len() > 0 ==> final(self).selection_visible(),
            old(self).viewport_rows == 0 ==> final(self).scroll == old(self).scroll,
            old(self).selection_visible() ==> final(self).scroll == old(self).scroll,
            final(self).scroll == Self::scrolled_to_selection(
                old(self).selected as int,
                old(self).scroll as int,
                old(self).viewport_rows as int,
                old(self).items@.len(),
            ),
    {
        if self.viewport_rows == 0 {
            return;
        }
        let max = self.maximum_scroll();
        let _len_bound = self.items.len();
        let ghost len = self.items@.len();
        let ghost rows = self.viewport_rows as int;
        let ghost sel = self.selected as int;
        if self.selected < self.scroll {
            self.scroll = self.selected;
        } else if self.selected >= self.scroll.saturating_add(self.viewport_rows) {
            self.scroll = self.selected.saturating_add(1).saturating_sub(self.viewport_rows);
            assert(len > 0 ==> self.scroll <= max);
        } else {
            assert(self.scroll <= max);
        }
        assert(len > 0 && rows > 0 ==> sel < self.scroll + rows);
        if self.scroll > max {
            assert(len > 0 && rows > 0 ==> sel < max + rows);
            self.scroll = max;
        }
        assert(len > 0 && rows > 0 ==> self.scroll <= sel) by {
            if len > 0 && rows > 0 {
                assert(sel < len);
            }
        }
        assert(len > 0 && rows > 0 ==> sel < self.scroll + rows);
    }

    /// Moves the selection by `delta` items, held to the list, and scrolls to it.
    pub fn move_selection(&mut self, delta: isize)
        requires
            old(self).wf(),
        ensures
            final(self).wf(),
            final(self).items@ == old(self).items@,
            old(self).items@.len() == 0 ==> final(self).selected == old(self).selected && final(self).scroll == old(self).scroll,
            old(self).items@.len() > 0 ==> {
                &&& final(self).selected == (if spec_add_signed(old(self).selected, delta)
                    < old(self).items@.len() {
                    spec_add_signed(old(self).selected, delta)
                } else {
                    (old(self).items@.len() - 1) as usize
                })
                &&& final(self).scroll_follows_selection
                &&& final(self).viewport_rows > 0 ==> final(self).selection_visible()
                &&& final(self).scroll == Self::scrolled_to_selection(
                    final(self).selected as int,
                    old(self).scroll as int,
                    old(self).viewport_rows as int,
                    old(self).items@.len(),
                )
            },
    {
        if self.items.len() == 0 {
            return;
        }
        let moved = add_signed(self.selected, delta);
        let last = self.items.len() - 1;
        self.selected = if moved < last { moved } else { last };
        self.scroll_follows_selection = true;
        self.ensure_selection_visible();
    }

    /// Scrolls the list without moving the selection.
    pub fn scroll_by(&mut self, delta: isize)
        requires
            old(self).wf(),
        ensures
            final(self).wf(),
            final(self).selected == old(self).selected,
            final(self).items@ == old(self).items@,
            !final(self).scroll_follows_selection,
            final(self).scroll == (if spec_add_signed(old(self).scroll, delta) < max_scroll(
                old(self).items@.len(),
                old(self).viewport_rows as nat,
            ) {
                spec_add_signed(old(self).scroll, delta) as nat
            } else {
                max_scroll(old(self).items@.len(), old(self).viewport_rows as nat)
            }),
            *final(self) == (HeaderPicker {
                scroll: final(self).scroll,
                scroll_follows_selection: false,
                ..*old(self)
            }),
    {
        self.scroll_follows_selection = false;
        let moved = add_signed(self.scroll, delta);
        let max = self.maximum_scroll();
        self.scroll = if moved < max { moved } else { max };
    }

    /// Records how many rows are on screen.
    pub fn set_viewport_rows(&mut self, rows: usize)
        requires
            old(self).wf(),
        ensures
            final(self).wf(),
            final(self).viewport_rows == rows,
            final(self).selected == old(self).selected,
            final(self).items@ == old(self).items@,
            old(self).scroll_follows_selection && rows > 0 && old(self).items@.len() > 0 ==> final(self).selection_visible(),
            !old(self).scroll_follows_selection ==> final(self).scroll == (if old(self).scroll
                < max_scroll(old(self).items@.len(), rows as nat) {
                old(self).scroll as nat
            } else {
                max_scroll(old(self).items@.len(), rows as nat)
            }),
    {
        self.viewport_rows = rows;
        let max = self.maximum_scroll();
        if self.scroll > max {
            self.scroll = max;
        }
        if self.scroll_follows_selection {
            self.ensure_selection_visible();
        }
    }

    /// Filters the items by the query's terms: an item stays when its
    /// lowercase searchable text holds every lowercase word of the query. An
    /// empty query shows every item with the default selection.
    pub fn apply_filter(&mut self)
        requires
            old(self).wf(),
        ensures
            final(self).wf(),
            final(self).all_items@ == old(self).all_items@,
            final(self).searchable_items@ == old(self).searchable_items@,
            final(self).query == old(self).query,
            final(self).viewport_rows == old(self).viewport_rows,
            final(self).scroll_follows_selection,
            query_terms(old(self).query.text@).len() == 0 ==> {
                &&& final(self).items@ == old(self).all_items@
                &&& final(self).selected == (if old(self).all_items@.len() == 0 {
                    0
                } else if old(self).default_selected < old(self).all_items@.len() {
                    old(self).default_selected
                } else {
                    (old(self).all_items@.len() - 1) as usize
                })
                &&& final(self).viewport_rows > 0 && final(self).items@.len() > 0 ==> final(self).selection_visible()
            },
            query_terms(old(self).query.text@).len() > 0 ==> {
                &&& final(self).items@ == filtered(
                    old(self).all_items@,
                    old(self).searchable_items@.map_values(|s: String| s@),
                    query_terms(old(self).query.text@),
                )
                &&& final(self).selected == 0
                &&& final(self).scroll == 0
            },
    {
        let query_chars = chars_of(self.query.text());
        let words = split_whitespace(&query_chars);
        let mut terms: Vec<Vec<char>> = Vec::new();
        let mut i: usize = 0;
        while i < words.len()
            invariant
                i <= words.len(),
                terms@.len() == i,
                words@.len() == crate::text::words(query_chars@).len(),
                forall|k: int| 0 <= k < words@.len() ==> #[trigger] words@[k]@ == crate::text::words(query_chars@)[k],
                forall|k: int| 0 <= k < i ==> #[trigger] terms@[k]@ == lowercase(words@[k]@),
            decreases words.len() - i,
        {
            let word = string_of(words[i].as_slice());
            let lower = to_lowercase(word.as_str());
            terms.push(chars_of(lower.as_str()));
            i = i + 1;
        }
        let ghost term_views = terms@.map_values(|t: Vec<char>| t@);
        assert(term_views =~= query_terms(self.query.text@));
        if terms.len() == 0 {
            self.items = Self::duplicate_items(&self.all_items);
            let last = if self.items.len() == 0 { 0 } else { self.items.len() - 1 };
            self.selected = if self.default_selected < last { self.default_selected } else { last };
            self.scroll = 0;
            self.scroll_follows_selection = true;
            self.ensure_selection_visible();
            return;
        }
        let ghost searchable = self.searchable_items@.map_values(|s: String| s@);
        let mut kept: Vec<HeaderPickerItem> = Vec::new();
        let mut j: usize = 0;
        while j < self.all_items.len()
            invariant
                j <= self.all_items.len(),
                self.searchable_items@.len() == self.all_items@.len(),
                searchable == self.searchable_items@.map_values(|s: String| s@),
                term_views == terms@.map_values(|t: Vec<char>| t@),
                kept@ == filtered(self.all_items@.take(j as int), searchable, term_views),
            decreases self.all_items.len() - j,
        {
            let hay = chars_of(self.searchable_items[j].as_str());
            let mut all = true;
            let mut t: usize = 0;
            while t < terms.len()
                invariant
                    t <= terms.len(),
                    j < self.searchable_items@.len(),
                    hay@ == self.searchable_items@[j as int]@,
                    term_views == terms@.map_values(|t: Vec<char>| t@),
                    all == forall|k: int| 0 <= k < t ==> contains_seq(hay@, #[trigger] term_views[k]),
                decreases terms.len() - t,
            {
                assert(term_views[t as int] == terms@[t as int]@);
                if !contains_chars(&hay, &terms[t]) {
                    all = false;
                }
                t = t + 1;
            }
            let ghost prefix = self.all_items@.take(j + 1);
            assert(prefix.drop_last() =~= self.all_items@.take(j as int));
            assert(searchable[j as int] == hay@);
            if all {
                kept.push(self.all_items[j].duplicate());
            }
            j = j + 1;
        }
        assert(self.all_items@.take(self.all_items.len() as int) =~= self.all_items@);
        self.items = kept;
        self.selected = 0;
        self.scroll = 0;
        self.scroll_follows_selection = true;
    }

    /// Refreshes the listed repositories from `details`; a change to a label or
    /// branch refilters the list. Reports whether any repository changed.
    pub fn sync_repository_details(&mut self, details: &Vec<RepositoryPickerItem>) -> (r: bool)
        requires
            old(self).wf(),
        ensures
            final(self).wf(),
            old(self).kind != Some(HeaderPickerKind::Repositories) ==> !r && final(self).all_items@
                == old(self).all_items@ && final(self).items@ == old(self).items@,
            old(self).kind == Some(HeaderPickerKind::Repositories) ==> {
                &&& final(self).all_items@.len() == old(self).all_items@.len()
                &&& forall|i: int|
                    0 <= i < old(self).all_items@.len() ==> #[trigger] final(self).all_items@[i]
                        == refreshed(old(self).all_items@[i], details@).0
                &&& r == exists|i: int|
                    0 <= i < old(self).all_items@.len() && #[trigger] refreshed(
                        old(self).all_items@[i],
                        details@,
                    ).1
                &&& final(self).query == old(self).query
                &&& if (exists|i: int|
                    0 <= i < old(self).all_items@.len() && #[trigger] refreshed(
                        old(self).all_items@[i],
                        details@,
                    ).2) {
                    &&& query_terms(old(self).query.text@).len() == 0 ==> final(self).items@ == final(self).all_items@
                    &&& query_terms(old(self).query.text@).len() > 0 ==> final(self).items@ == filtered(
                        final(self).all_items@,
                        final(self).searchable_items@.map_values(|s: String| s@),
                        query_terms(old(self).query.text@),
                    )
                } else {
                    &&& final(self).items@.len() == old(self).items@.len()
                    &&& forall|i: int|
                        0 <= i < old(self).items@.len() ==> #[trigger] final(self).items@[i] == refreshed(
                            old(self).items@[i],
                            details@,
                        ).0
                }
            },
    {
        if self.kind != Some(HeaderPickerKind::Repositories) {
            return false;
        }
        let (all_changed, searchable_changed) = update_repository_details(
            &mut self.all_items,
            details,
        );
        if searchable_changed {
            self.searchable_items = Self::searchable_texts(&self.all_items);
            self.apply_filter();
        } else {
            proof {
                assert forall|i: int| 0 <= i < self.all_items@.len() implies #[trigger] self.searchable_items@[i]@
                    == lowercase(self.all_items@[i].spec_searchable_text()) by {
                    assert(!refreshed(old(self).all_items@[i], details@).2);
                }
            }
            let ghost len = self.items@.len();
            update_repository_details(&mut self.items, details);
            assert(self.items@.len() == len);
        }
        all_changed
    }

    /// Starts loading change counts for the listed worktrees that lack them;
    /// hands back the index and path of each, which the caller loads in the background.
    pub fn begin_change_details(&mut self) -> (r: Vec<(usize, String)>)
        ensures
            final(self).change_details_pending == (r@.len() > 0),
            old(self).kind != Some(HeaderPickerKind::Worktrees) ==> r@.len() == 0,
            forall|k: int|
                0 <= k < r@.len() ==> {
                    let (index, path) = #[trigger] r@[k];
                    &&& index < old(self).all_items@.len()
                    &&& old(self).all_items@[index as int] matches HeaderPickerItem::Worktree {
                        worktree,
                        stats,
                    } && stats is None && worktree.path@ == path@
                },
            final(self).all_items@ == old(self).all_items@,
            final(self).items@ == old(self).items@,
    {
        self.change_details_pending = false;
        let mut paths: Vec<(usize, String)> = Vec::new();
        if self.kind != Some(HeaderPickerKind::Worktrees) {
            return paths;
        }
        let mut i: usize = 0;
        while i < self.all_items.len()
            invariant
                i <= self.all_items.len(),
                forall|k: int|
                    0 <= k < paths@.len() ==> {
                        let (index, path) = #[trigger] paths@[k];
                        &&& index < self.all_items@.len()
                        &&& self.all_items@[index as int] matches HeaderPickerItem::Worktree {
                            worktree,
                            stats,
                        } && stats is None && worktree.path@ == path@
                    },
            decreases self.all_items.len() - i,
        {
            if let HeaderPickerItem::Worktree { worktree, stats } = &self.all_items[i] {
                if stats.is_none() {
                    paths.push((i, worktree.path.clone()));
                }
            }
            i = i + 1;
        }
        if paths.len() > 0 {
            self.change_details_pending = true;
        }
        paths
    }

    /// Applies the change counts that arrived; `disconnected` when the loader
    /// has finished. Reports whether an item on screen changed.
    pub fn poll_change_details(&mut self, completions: Vec<ChangeDetailsCompletion>, disconnected: bool) -> (r:
        bool)
        requires
            old(self).wf(),
        ensures
            final(self).wf(),
            final(self).all_items@.len() == old(self).all_items@.len(),
            final(self).items@.len() == old(self).items@.len(),
            disconnected ==> !final(self).change_details_pending,
            !disconnected ==> final(self).change_details_pending == old(self).change_details_pending,
    {
        let mut changed = false;
        let mut i: usize = 0;
        while i < completions.len()
            invariant
                self.wf(),
                i <= completions.len(),
                self.all_items@.len() == old(self).all_items@.len(),
                self.items@.len() == old(self).items@.len(),
                self.change_details_pending == old(self).change_details_pending,
            decreases completions.len() - i,
        {
            let completion = &completions[i];
            let ghost before = self.all_items@;
            update_worktree_stats_at(
                &mut self.all_items,
                completion.index,
                &completion.path,
                completion.stats,
            );
            proof {
                assert forall|k: int| 0 <= k < self.all_items@.len() implies #[trigger] self.searchable_items@[k]@
                    == lowercase(self.all_items@[k].spec_searchable_text()) by {
                    if k == completion.index {
                        assert(same_item_text(before[k], self.all_items@[k]));
                    }
                }
            }
            let visible_changed = if self.query.is_empty() {
                update_worktree_stats_at(
                    &mut self.items,
                    completion.index,
                    &completion.path,
                    completion.stats,
                )
            } else {
                update_worktree_stats(&mut self.items, &completion.path, completion.stats)
            };
            let completion_is_visible = !self.query.is_empty() || (completion.index >= self.scroll
                && completion.index < self.scroll.saturating_add(self.viewport_rows));
            if visible_changed && completion_is_visible {
                changed = true;
            }
            i = i + 1;
        }
        if disconnected {
            self.change_details_pending = false;
        }
        changed
    }
}

} // verus!
