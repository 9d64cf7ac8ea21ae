//! Agent layouts in Herdr tabs: the split tree of panes and the operations on
//! it that exchanging an agent's layout with Hunkle's tab relies on.
use vstd::prelude::*;
use crate::agent::str_eq;
use crate::keyed::TextTable;
use crate::text::append_str;

verus! {

/// The way a split divides its area.
#[derive(Debug, Clone, Copy, PartialEq, Eq, Structural)]
pub enum LayoutDirection {
    Right,
    Down,
}

impl LayoutDirection {
    /// The name Herdr's command line uses for the direction.
    pub fn as_str(self) -> (r: &'static str)
        ensures
            r@ == (match self {
                LayoutDirection::Right => "right"@,
                LayoutDirection::Down => "down"@,
            }),
    {
        match self {
            LayoutDirection::Right => "right",
            LayoutDirection::Down => "down",
        }
    }
}

/// A node of a tab's layout. A split keeps the bits of the `f32` ratio Herdr
/// reported; nothing here reads the ratio, it is only carried along.
#[derive(Debug, PartialEq, Eq)]
pub enum LiveLayoutNode {
    Pane(String),
    Split {
        direction: LayoutDirection,
        ratio_bits: u32,
        first: Box<LiveLayoutNode>,
        second: Box<LiveLayoutNode>,
    },
}

/// The ids of a sequence of strings.
pub open spec fn views(v: Seq<String>) -> Seq<Seq<char>> {
    v.map_values(|s: String| s@)
}

/// How often `x` occurs in `s`.
pub open spec fn occurrences(s: Seq<Seq<char>>, x: Seq<char>) -> nat
    decreases s.len(),
{
    if s.len() == 0 {
        0
    } else {
        occurrences(s.drop_last(), x) + (if s.last() == x {
            1nat
        } else {
            0nat
        })
    }
}

pub proof fn lemma_occurrences_absent(s: Seq<Seq<char>>, x: Seq<char>)
    requires
        !s.contains(x),
    ensures
        occurrences(s, x) == 0,
    decreases s.len(),
{
    if s.len() > 0 {
        assert(!s.drop_last().contains(x)) by {
            if s.drop_last().contains(x) {
                let i = choose|i: int| 0 <= i < s.drop_last().len() && s.drop_last()[i] == x;
                assert(s[i] == x);
            }
        }
        assert(s[s.len() - 1] != x);
        lemma_occurrences_absent(s.drop_last(), x);
    }
}

/// The message for a saved layout pane that no longer exists.
pub open spec fn unavailable_message(pane: Seq<char>) -> Seq<char> {
    "Saved layout pane "@ + pane + " is unavailable"@
}

fn unavailable_error(pane: &str) -> (r: String)
    ensures
        r@ == unavailable_message(pane@),
{
    let mut message = String::from_str("Saved layout pane ");
    append_str(&mut message, pane);
    append_str(&mut message, " is unavailable");
    message
}

/// Where a pane of a saved layout lives now.
#[derive(Debug, PartialEq, Eq)]
pub struct LivePaneLocation {
    pub pane_id: String,
    pub tab_id: String,
}

impl View for LivePaneLocation {
    type V = (Seq<char>, Seq<char>);

    open spec fn view(&self) -> (Seq<char>, Seq<char>) {
        (self.pane_id@, self.tab_id@)
    }
}

impl LivePaneLocation {
    pub fn duplicate(&self) -> (r: Self)
        ensures
            r == *self,
    {
        LivePaneLocation { pane_id: self.pane_id.clone(), tab_id: self.tab_id.clone() }
    }
}

/// Saved panes by their id in the saved layout.
pub type PaneLocations = TextTable<LivePaneLocation>;

impl LiveLayoutNode {
    /// The pane ids of the tree, first child before second.
    pub open spec fn panes(self) -> Seq<Seq<char>>
        decreases self,
    {
        match self {
            LiveLayoutNode::Pane(pane_id) => seq![pane_id@],
            LiveLayoutNode::Split { first, second, .. } => first.panes() + second.panes(),
        }
    }

    /// The tree without the panes whose id is `pane_id`; a split that loses one
    /// child is replaced by the other.
    pub open spec fn spec_without(self, pane_id: Seq<char>) -> Option<LiveLayoutNode>
        decreases self,
    {
        match self {
            LiveLayoutNode::Pane(candidate) => if candidate@ != pane_id {
                Some(self)
            } else {
                None
            },
            LiveLayoutNode::Split { direction, ratio_bits, first, second } => match (
                first.spec_without(pane_id),
                second.spec_without(pane_id),
            ) {
                (Some(f), Some(s)) => Some(
                    LiveLayoutNode::Split {
                        direction,
                        ratio_bits,
                        first: Box::new(f),
                        second: Box::new(s),
                    },
                ),
                (Some(n), None) => Some(n),
                (None, Some(n)) => Some(n),
                (None, None) => None,
            },
        }
    }

    /// The tree with each pane renamed to its live id; the first unknown pane
    /// (first child before second) is the error.
    pub open spec fn spec_remap(self, panes: Map<Seq<char>, LivePaneLocation>) -> Result<
        LiveLayoutNode,
        Seq<char>,
    >
        decreases self,
    {
        match self {
            LiveLayoutNode::Pane(pane_id) => if panes.dom().contains(pane_id@) {
                Ok(LiveLayoutNode::Pane(panes[pane_id@].pane_id))
            } else {
                Err(pane_id@)
            },
            LiveLayoutNode::Split { direction, ratio_bits, first, second } => match first.spec_remap(
                panes,
            ) {
                Err(e) => Err(e),
                Ok(f) => match second.spec_remap(panes) {
                    Err(e) => Err(e),
                    Ok(s) => Ok(
                        LiveLayoutNode::Split {
                            direction,
                            ratio_bits,
                            first: Box::new(f),
                            second: Box::new(s),
                        },
                    ),
                },
            },
        }
    }

    /// The tree with each known pane renamed to its live id.
    pub open spec fn spec_remap_known(self, panes: Map<Seq<char>, LivePaneLocation>) -> LiveLayoutNode
        decreases self,
    {
        match self {
            LiveLayoutNode::Pane(pane_id) => if panes.dom().contains(pane_id@) {
                LiveLayoutNode::Pane(panes[pane_id@].pane_id)
            } else {
                self
            },
            LiveLayoutNode::Split { direction, ratio_bits, first, second } => LiveLayoutNode::Split {
                direction,
                ratio_bits,
                first: Box::new(first.spec_remap_known(panes)),
                second: Box::new(second.spec_remap_known(panes)),
            },
        }
    }

    pub proof fn lemma_panes_nonempty(self)
        ensures
            self.panes().len() > 0,
        decreases self,
    {
        if let LiveLayoutNode::Split { first, second, .. } = self {
            first.lemma_panes_nonempty();
            second.lemma_panes_nonempty();
        }
    }

    /// Removing a pane keeps exactly the other panes, in order; nothing is left
    /// only when every pane was the removed one.
    pub proof fn lemma_without_keeps_other_panes(self, pane_id: Seq<char>)
        ensures
            match self.spec_without(pane_id) {
                Some(t) => t.panes() == self.panes().filter(|p: Seq<char>| p != pane_id)
                    && t.panes().len() > 0,
                None => self.panes().filter(|p: Seq<char>| p != pane_id).len() == 0,
            },
        decreases self,
    {
        let keep = |p: Seq<char>| p != pane_id;
        match self {
            LiveLayoutNode::Pane(candidate) => {
                reveal_with_fuel(Seq::filter, 2);
                assert(seq![candidate@].drop_last() =~= Seq::<Seq<char>>::empty());
            },
            LiveLayoutNode::Split { first, second, .. } => {
                first.lemma_without_keeps_other_panes(pane_id);
                second.lemma_without_keeps_other_panes(pane_id);
                Seq::filter_distributes_over_add(first.panes(), second.panes(), keep);
                assert(first.panes().filter(keep) + Seq::<Seq<char>>::empty() =~= first.panes().filter(keep));
                assert(Seq::<Seq<char>>::empty() + second.panes().filter(keep) =~= second.panes().filter(keep));
            },
        }
    }

    pub fn duplicate(&self) -> (r: Self)
        ensures
            r == *self,
        decreases self,
    {
        match self {
            LiveLayoutNode::Pane(pane_id) => LiveLayoutNode::Pane(pane_id.clone()),
            LiveLayoutNode::Split { direction, ratio_bits, first, second } => LiveLayoutNode::Split {
                direction: *direction,
                ratio_bits: *ratio_bits,
                first: Box::new((**first).duplicate()),
                second: Box::new((**second).duplicate()),
            },
        }
    }

    /// The first pane of the tree.
    pub fn first_pane(&self) -> (r: &str)
        ensures
            self.panes().len() > 0,
            r@ == self.panes()[0],
        decreases self,
    {
        proof {
            self.lemma_panes_nonempty();
        }
        match self {
            LiveLayoutNode::Pane(pane_id) => pane_id.as_str(),
            LiveLayoutNode::Split { first, second, .. } => {
                proof {
                    second.lemma_panes_nonempty();
                }
                first.first_pane()
            },
        }
    }

    /// Whether the tree holds the pane `pane_id`.
    pub fn contains(&self, pane_id: &str) -> (r: bool)
        ensures
            r == self.panes().contains(pane_id@),
        decreases self,
    {
        match self {
            LiveLayoutNode::Pane(candidate) => {
                let r = str_eq(candidate.as_str(), pane_id);
                proof {
                    if self.panes().contains(pane_id@) {
                        let i = choose|i: int| 0 <= i < self.panes().len() && self.panes()[i] == pane_id@;
                        assert(i == 0);
                    }
                    if r {
                        assert(self.panes()[0] == pane_id@);
                    }
                }
                r
            },
            LiveLayoutNode::Split { first, second, .. } => {
                let a = first.contains(pane_id);
                let b = second.contains(pane_id);
                proof {
                    let s = first.panes() + second.panes();
                    if a {
                        let i = choose|i: int| 0 <= i < first.panes().len() && first.panes()[i] == pane_id@;
                        assert(s[i] == pane_id@);
                    }
                    if b {
                        let i = choose|i: int| 0 <= i < second.panes().len() && second.panes()[i] == pane_id@;
                        assert(s[first.panes().len() + i] == pane_id@);
                    }
                    if s.contains(pane_id@) {
                        let i = choose|i: int| 0 <= i < s.len() && s[i] == pane_id@;
                        if i < first.panes().len() {
                            assert(first.panes()[i] == pane_id@);
                        } else {
                            assert(second.panes()[i - first.panes().len()] == pane_id@);
                        }
                    }
                }
                a || b
            },
        }
    }

    /// Appends the pane ids of the tree to `panes`.
    pub fn collect_panes(&self, panes: &mut Vec<String>)
        ensures
            views(final(panes)@) == views(old(panes)@) + self.panes(),
        decreases self,
    {
        match self {
            LiveLayoutNode::Pane(pane_id) => {
                panes.push(pane_id.clone());
                assert(views(panes@) =~= views(old(panes)@) + self.panes());
            },
            LiveLayoutNode::Split { first, second, .. } => {
                first.collect_panes(panes);
                second.collect_panes(panes);
                assert(views(panes@) =~= views(old(panes)@) + self.panes());
            },
        }
    }

    /// How many panes the tree holds.
    pub fn pane_count(&self) -> (r: usize)
        requires
            self.panes().len() <= usize::MAX,
        ensures
            r == self.panes().len(),
        decreases self,
    {
        match self {
            LiveLayoutNode::Pane(_) => 1,
            LiveLayoutNode::Split { first, second, .. } => first.pane_count() + second.pane_count(),
        }
    }

    /// The tree without the pane `pane_id`, or `None` when nothing is left.
    pub fn without_pane(&self, pane_id: &str) -> (r: Option<Self>)
        ensures
            r == self.spec_without(pane_id@),
        decreases self,
    {
        match self {
            LiveLayoutNode::Pane(candidate) => {
                if str_eq(candidate.as_str(), pane_id) {
                    None
                } else {
                    Some(self.duplicate())
                }
            },
            LiveLayoutNode::Split { direction, ratio_bits, first, second } => {
                match (first.without_pane(pane_id), second.without_pane(pane_id)) {
                    (Some(f), Some(s)) => Some(
                        LiveLayoutNode::Split {
                            direction: *direction,
                            ratio_bits: *ratio_bits,
                            first: Box::new(f),
                            second: Box::new(s),
                        },
                    ),
                    (Some(node), None) => Some(node),
                    (None, Some(node)) => Some(node),
                    (None, None) => None,
                }
            },
        }
    }

    /// Whether both trees hold the same panes, each as often.
    pub fn has_same_panes(&self, other: &Self) -> (r: bool)
        ensures
            r == (forall|p: Seq<char>| occurrences(self.panes(), p) == occurrences(other.panes(), p)),
    {
        let mut left: Vec<String> = Vec::new();
        let mut right: Vec<String> = Vec::new();
        self.collect_panes(&mut left);
        other.collect_panes(&mut right);
        assert(views(left@) =~= self.panes());
        assert(views(right@) =~= other.panes());
        let ok1 = counts_agree(&left, &right);
        let ok2 = counts_agree(&right, &left);
        proof {
            if ok1 && ok2 {
                assert forall|p: Seq<char>| occurrences(self.panes(), p) == occurrences(other.panes(), p) by {
                    if self.panes().contains(p) {
                        let i = choose|i: int| 0 <= i < self.panes().len() && self.panes()[i] == p;
                        assert(views(left@)[i] == p);
                    } else if other.panes().contains(p) {
                        let i = choose|i: int| 0 <= i < other.panes().len() && other.panes()[i] == p;
                        assert(views(right@)[i] == p);
                    } else {
                        lemma_occurrences_absent(self.panes(), p);
                        lemma_occurrences_absent(other.panes(), p);
                    }
                }
            }
        }
        ok1 && ok2
    }

    /// The tree with every pane renamed to its live id, or the error naming
    /// the first pane that is no longer available.
    pub fn remap(&self, panes: &PaneLocations) -> (r: Result<Self, String>)
        requires
            panes.wf(),
        ensures
            match self.spec_remap(panes@) {
                Ok(t) => r == Ok::<LiveLayoutNode, String>(t),
                Err(p) => r matches Err(e) && e@ == unavailable_message(p),
            },
        decreases self,
    {
        match self {
            LiveLayoutNode::Pane(pane_id) => match panes.get(pane_id.as_str()) {
                Some(location) => Ok(LiveLayoutNode::Pane(location.pane_id.clone())),
                None => Err(unavailable_error(pane_id.as_str())),
            },
            LiveLayoutNode::Split { direction, ratio_bits, first, second } => {
                let f = match first.remap(panes) {
                    Ok(f) => f,
                    Err(e) => {
                        return Err(e);
                    },
                };
                let s = match second.remap(panes) {
                    Ok(s) => s,
                    Err(e) => {
                        return Err(e);
                    },
                };
                Ok(
                    LiveLayoutNode::Split {
                        direction: *direction,
                        ratio_bits: *ratio_bits,
                        first: Box::new(f),
                        second: Box::new(s),
                    },
                )
            },
        }
    }

    /// The tree with each pane that `panes` knows renamed to its live id.
    pub fn remapped_known(&self, panes: &PaneLocations) -> (r: Self)
        requires
            panes.wf(),
        ensures
            r == self.spec_remap_known(panes@),
        decreases self,
    {
        match self {
            LiveLayoutNode::Pane(pane_id) => match panes.get(pane_id.as_str()) {
                Some(location) => LiveLayoutNode::Pane(location.pane_id.clone()),
                None => self.duplicate(),
            },
            LiveLayoutNode::Split { direction, ratio_bits, first, second } => LiveLayoutNode::Split {
                direction: *direction,
                ratio_bits: *ratio_bits,
                first: Box::new(first.remapped_known(panes)),
                second: Box::new(second.remapped_known(panes)),
            },
        }
    }

    /// Renames each pane that `panes` knows to its live id.
    pub fn remap_known(&mut self, panes: &PaneLocations)
        requires
            panes.wf(),
        ensures
            *final(self) == old(self).spec_remap_known(panes@),
    {
        let renamed = self.remapped_known(panes);
        *self = renamed;
    }
}

/// How often `x` occurs in the ids of `v`.
fn count_of(v: &Vec<String>, x: &str) -> (r: usize)
    ensures
        r == occurrences(views(v@), x@),
{
    let mut n: usize = 0;
    let mut i: usize = 0;
    while i < v.len()
        invariant
            i <= v.len(),
            n <= i,
            n == occurrences(views(v@.take(i as int)), x@),
        decreases v.len() - i,
    {
        assert(views(v@.take(i + 1)).drop_last() =~= views(v@.take(i as int)));
        if str_eq(v[i].as_str(), x) {
            n = n + 1;
        }
        i = i + 1;
    }
    assert(v@.take(v.len() as int) =~= v@);
    n
}

/// Whether every id of `a` occurs as often in `a` as in `b`.
fn counts_agree(a: &Vec<String>, b: &Vec<String>) -> (r: bool)
    ensures
        r == (forall|i: int| 0 <= i < a.len() ==> occurrences(views(a@), #[trigger] a@[i]@) == occurrences(views(b@), a@[i]@)),
{
    let mut i: usize = 0;
    while i < a.len()
        invariant
            i <= a.len(),
            forall|j: int| 0 <= j < i ==> occurrences(views(a@), #[trigger] a@[j]@) == occurrences(views(b@), a@[j]@),
        decreases a.len() - i,
    {
        if count_of(a, a[i].as_str()) != count_of(b, a[i].as_str()) {
            return false;
        }
        i = i + 1;
    }
    true
}

/// The layout an agent left behind when it was last displayed or parked.
#[derive(Debug, PartialEq, Eq)]
pub struct AgentLayout {
    pub root: LiveLayoutNode,
}

impl AgentLayout {
    pub fn duplicate(&self) -> (r: Self)
        ensures
            r == *self,
    {
        AgentLayout { root: self.root.duplicate() }
    }

    /// Renames each pane that `panes` knows to its live id.
    pub fn remap_known(&mut self, panes: &PaneLocations)
        requires
            panes.wf(),
        ensures
            final(self).root == old(self).root.spec_remap_known(panes@),
    {
        self.root.remap_known(panes);
    }
}

/// The bits of the ratio Hunkle's pane keeps when a layout is placed beside it.
pub const HOST_SPLIT_RATIO_BITS: u32 = 0x3f19_999a;

/// Where a layout goes around Hunkle's pane: on the side of the current split
/// that does not hold Hunkle, in that split's direction and ratio, or to
/// Hunkle's right when the current tab is no split holding Hunkle on one side.
pub open spec fn spec_layout_around_host(current: LiveLayoutNode, host_pane: String, layout: LiveLayoutNode) -> LiveLayoutNode {
    let host = host_pane@;
    match current {
        LiveLayoutNode::Split { direction, ratio_bits, first, second } => if first.panes().contains(host) {
            LiveLayoutNode::Split {
                direction,
                ratio_bits,
                first: Box::new(LiveLayoutNode::Pane(host_pane)),
                second: Box::new(layout),
            }
        } else if second.panes().contains(host) {
            LiveLayoutNode::Split {
                direction,
                ratio_bits,
                first: Box::new(layout),
                second: Box::new(LiveLayoutNode::Pane(host_pane)),
            }
        } else {
            LiveLayoutNode::Split {
                direction: LayoutDirection::Right,
                ratio_bits: HOST_SPLIT_RATIO_BITS,
                first: Box::new(LiveLayoutNode::Pane(host_pane)),
                second: Box::new(layout),
            }
        },
        LiveLayoutNode::Pane(_) => LiveLayoutNode::Split {
            direction: LayoutDirection::Right,
            ratio_bits: HOST_SPLIT_RATIO_BITS,
            first: Box::new(LiveLayoutNode::Pane(host_pane)),
            second: Box::new(layout),
        },
    }
}

/// The layout that places `layout` beside Hunkle's pane.
pub fn layout_around_host(current: &LiveLayoutNode, host_pane_id: &str, layout: LiveLayoutNode) -> (r:
    LiveLayoutNode)
    ensures
        r matches LiveLayoutNode::Split { .. },
        exists|host: String| host@ == host_pane_id@ && r == spec_layout_around_host(*current, host, layout),
{
    let host_name = host_pane_id.to_owned();
    let ghost g = host_name;
    let host = LiveLayoutNode::Pane(host_name);
    match current {
        LiveLayoutNode::Split { direction, ratio_bits, first, second } => {
            if first.contains(host_pane_id) {
                LiveLayoutNode::Split {
                    direction: *direction,
                    ratio_bits: *ratio_bits,
                    first: Box::new(host),
                    second: Box::new(layout),
                }
            } else if second.contains(host_pane_id) {
                LiveLayoutNode::Split {
                    direction: *direction,
                    ratio_bits: *ratio_bits,
                    first: Box::new(layout),
                    second: Box::new(host),
                }
            } else {
                LiveLayoutNode::Split {
                    direction: LayoutDirection::Right,
                    ratio_bits: HOST_SPLIT_RATIO_BITS,
                    first: Box::new(host),
                    second: Box::new(layout),
                }
            }
        },
        LiveLayoutNode::Pane(_) => LiveLayoutNode::Split {
            direction: LayoutDirection::Right,
            ratio_bits: HOST_SPLIT_RATIO_BITS,
            first: Box::new(host),
            second: Box::new(layout),
        },
    }
}

/// Whether two pane lists hold the same panes, each as often.
pub open spec fn same_panes(a: Seq<Seq<char>>, b: Seq<Seq<char>>) -> bool {
    forall|p: Seq<char>| occurrences(a, p) == occurrences(b, p)
}

/// The displayed layout without Hunkle's pane, which it must hold.
pub fn layout_without_host(root: &LiveLayoutNode, host_pane_id: &str) -> (r: Result<
    Option<LiveLayoutNode>,
    String,
>)
    ensures
        root.panes().contains(host_pane_id@) ==> r == Ok::<Option<LiveLayoutNode>, String>(
            root.spec_without(host_pane_id@),
        ),
        !root.panes().contains(host_pane_id@) ==> (r matches Err(e) && e@
            == "Hunkle is missing from the displayed agent layout"@),
{
    if !root.contains(host_pane_id) {
        return Err(String::from_str("Hunkle is missing from the displayed agent layout"));
    }
    Ok(root.without_pane(host_pane_id))
}

/// Whether a saved layout, without Hunkle's pane, holds exactly the panes of
/// the parked tree.
pub fn saved_layout_matches(layout: &AgentLayout, parked: &LiveLayoutNode, host_pane_id: &str) -> (r:
    bool)
    ensures
        r == (layout.root.panes().contains(host_pane_id@) && match layout.root.spec_without(
            host_pane_id@,
        ) {
            Some(saved) => same_panes(saved.panes(), parked.panes()),
            None => false,
        }),
{
    if !layout.root.contains(host_pane_id) {
        return false;
    }
    match layout.root.without_pane(host_pane_id) {
        Some(saved) => saved.has_same_panes(parked),
        None => false,
    }
}

/// The first pane of the tree (first child before second) that now lives in
/// the tab `tab_id`.
pub open spec fn spec_pane_in_tab(
    tree: LiveLayoutNode,
    tab_id: Seq<char>,
    panes: Map<Seq<char>, LivePaneLocation>,
) -> Option<Seq<char>>
    decreases tree,
{
    match tree {
        LiveLayoutNode::Pane(pane_id) => if panes.dom().contains(pane_id@) && panes[pane_id@].tab_id@
            == tab_id {
            Some(pane_id@)
        } else {
            None
        },
        LiveLayoutNode::Split { first, second, .. } => match spec_pane_in_tab(*first, tab_id, panes) {
            Some(p) => Some(p),
            None => spec_pane_in_tab(*second, tab_id, panes),
        },
    }
}

/// A pane of the tree that now lives in the tab `tab_id`, if any.
pub fn pane_in_tab<'a>(tree: &'a LiveLayoutNode, tab_id: &str, panes: &PaneLocations) -> (r: Option<
    &'a str,
>)
    requires
        panes.wf(),
    ensures
        match spec_pane_in_tab(*tree, tab_id@, panes@) {
            Some(p) => r matches Some(q) && q@ == p,
            None => r is None,
        },
    decreases tree,
{
    match tree {
        LiveLayoutNode::Pane(pane_id) => match panes.get(pane_id.as_str()) {
            Some(location) => if str_eq(location.tab_id.as_str(), tab_id) {
                Some(pane_id.as_str())
            } else {
                None
            },
            None => None,
        },
        LiveLayoutNode::Split { first, second, .. } => match pane_in_tab(first, tab_id, panes) {
            Some(p) => Some(p),
            None => pane_in_tab(second, tab_id, panes),
        },
    }
}

/// Each pane of the trees with the tab of its tree, in order.
pub open spec fn located(trees: Seq<(&LiveLayoutNode, &str)>) -> Seq<(Seq<char>, Seq<char>)>
    decreases trees.len(),
{
    if trees.len() == 0 {
        seq![]
    } else {
        located(trees.drop_last()) + trees.last().0.panes().map_values(
            |p: Seq<char>| (p, trees.last().1@),
        )
    }
}

/// The locations of the listed panes, each in its own pane and tab, or `None`
/// when a pane is listed twice.
pub open spec fn spec_locations(l: Seq<(Seq<char>, Seq<char>)>) -> Option<
    Map<Seq<char>, (Seq<char>, Seq<char>)>,
>
    decreases l.len(),
{
    if l.len() == 0 {
        Some(Map::empty())
    } else {
        match spec_locations(l.drop_last()) {
            None => None,
            Some(m) => if m.dom().contains(l.last().0) {
                None
            } else {
                Some(m.insert(l.last().0, l.last()))
            },
        }
    }
}

proof fn lemma_locations_stay_none(l: Seq<(Seq<char>, Seq<char>)>, rest: Seq<(Seq<char>, Seq<char>)>)
    requires
        spec_locations(l) is None,
    ensures
        spec_locations(l + rest) is None,
    decreases rest.len(),
{
    if rest.len() == 0 {
        assert(l + rest =~= l);
    } else {
        lemma_locations_stay_none(l, rest.drop_last());
        assert((l + rest).drop_last() =~= l + rest.drop_last());
    }
}

/// Whether a table of locations holds exactly the located panes.
pub open spec fn locations_match(
    t: Map<Seq<char>, LivePaneLocation>,
    m: Map<Seq<char>, (Seq<char>, Seq<char>)>,
) -> bool {
    &&& t.dom() == m.dom()
    &&& forall|k: Seq<char>| #[trigger] t.dom().contains(k) ==> t[k]@ == m[k]
}

/// Where each pane of the saved layouts lives: in its own pane, in the tab its
/// tree was exported from. A pane listed twice is an error.
pub fn pane_locations(trees: &[(&LiveLayoutNode, &str)]) -> (r: Result<PaneLocations, String>)
    ensures
        match spec_locations(located(trees@)) {
            Some(m) => r matches Ok(t) && t.wf() && locations_match(t@, m),
            None => r matches Err(e) && e@
                == "Herdr returned duplicate panes in the saved layouts"@,
        },
{
    let mut flat: Vec<(String, String)> = Vec::new();
    let mut i: usize = 0;
    while i < trees.len()
        invariant
            i <= trees.len(),
            flat@.map_values(|e: (String, String)| (e.0@, e.1@)) == located(trees@.take(i as int)),
        decreases trees.len() - i,
    {
        let (tree, tab_id) = trees[i];
        let mut ids: Vec<String> = Vec::new();
        tree.collect_panes(&mut ids);
        assert(views(ids@) =~= tree.panes());
        let ghost before = flat@;
        let mut j: usize = 0;
        while j < ids.len()
            invariant
                j <= ids.len(),
                views(ids@) == tree.panes(),
                flat@.len() == before.len() + j,
                forall|a: int| 0 <= a < before.len() ==> flat@[a] == before[a],
                forall|a: int| 0 <= a < j ==> (#[trigger] flat@[before.len() + a]).0@ == ids@[a]@
                    && flat@[before.len() + a].1@ == tab_id@,
            decreases ids.len() - j,
        {
            flat.push((ids[j].clone(), tab_id.to_owned()));
            j = j + 1;
        }
        proof {
            let t = trees@.take(i + 1);
            assert(t.drop_last() =~= trees@.take(i as int));
            assert(t.last() == trees@[i as int]);
            let f = |e: (String, String)| (e.0@, e.1@);
            assert(flat@.map_values(f) =~= located(trees@.take(i as int)) + tree.panes().map_values(
                |p: Seq<char>| (p, tab_id@),
            )) by {
                assert(before.map_values(f) == located(trees@.take(i as int)));
                assert forall|a: int| 0 <= a < flat@.len() implies flat@.map_values(f)[a] == (
                located(trees@.take(i as int)) + tree.panes().map_values(|p: Seq<char>| (p, tab_id@)))[a] by {
                    if a < before.len() {
                        assert(before.map_values(f)[a] == f(before[a]));
                    } else {
                        let b = a - before.len();
                        assert(flat@[before.len() + b].0@ == ids@[b]@);
                        assert(views(ids@)[b] == ids@[b]@);
                    }
                }
            }
        }
        i = i + 1;
    }
    assert(trees@.take(trees.len() as int) =~= trees@);
    let ghost all = located(trees@);
    let mut table: PaneLocations = TextTable::new();
    let mut k: usize = 0;
    while k < flat.len()
        invariant
            k <= flat.len(),
            flat@.map_values(|e: (String, String)| (e.0@, e.1@)) == all,
            all == located(trees@),
            table.wf(),
            spec_locations(all.take(k as int)) matches Some(m) && locations_match(table@, m),
        decreases flat.len() - k,
    {
        let ghost prefix = all.take(k as int);
        let ghost next = all.take(k + 1);
        assert(next.drop_last() =~= prefix);
        assert(next.last() == (flat@[k as int].0@, flat@[k as int].1@));
        let (pane_id, tab_id) = &flat[k];
        let location = LivePaneLocation { pane_id: pane_id.clone(), tab_id: tab_id.clone() };
        if table.insert(pane_id.clone(), location) {
            proof {
                assert(spec_locations(next) is None);
                assert(all =~= next + all.skip(k + 1));
                lemma_locations_stay_none(next, all.skip(k + 1));
            }
            return Err(String::from_str("Herdr returned duplicate panes in the saved layouts"));
        }
        k = k + 1;
    }
    assert(all.take(flat.len() as int) =~= all);
    Ok(table)
}

/// A tab's layout as Herdr exports it.
#[derive(Debug)]
pub struct LiveLayout {
    pub workspace_id: String,
    pub tab_id: String,
    pub zoomed: bool,
    pub focused_pane_id: String,
    pub root: LiveLayoutNode,
}

/// What displaying an agent needs: the agent's pane and tab, Hunkle's pane and
/// tab, and the agent's saved layout.
#[derive(Debug)]
pub struct DisplayAgentRequest {
    pub pane_id: String,
    pub workspace_id: String,
    pub tab_id: String,
    pub host_pane_id: String,
    pub host_workspace_id: String,
    pub host_tab_id: String,
    pub allow_cross_workspace: bool,
    pub saved_layout: Option<AgentLayout>,
}

/// Why a layout exchange cannot start, checked in this order.
pub open spec fn spec_validate_layouts(
    request: DisplayAgentRequest,
    host: LiveLayout,
    selected: LiveLayout,
) -> Option<Seq<char>> {
    if host.workspace_id@ != request.host_workspace_id@ || host.tab_id@ != request.host_tab_id@ {
        Some("Hunkle's Herdr tab changed before the layout could be displayed"@)
    } else if selected.workspace_id@ != request.workspace_id@ || selected.tab_id@ != request.tab_id@ {
        Some("The selected agent moved before its layout could be displayed"@)
    } else if host.zoomed || selected.zoomed {
        Some("Agent layouts cannot be exchanged while either tab is zoomed"@)
    } else if host.focused_pane_id@ != request.host_pane_id@ {
        Some("Hunkle must be focused before displaying an agent layout"@)
    } else if !selected.root.panes().contains(request.pane_id@) {
        Some("The selected agent moved before its layout could be displayed"@)
    } else {
        None
    }
}

/// Checks that both tabs are still as the request saw them.
pub fn validate_layouts(request: &DisplayAgentRequest, host: &LiveLayout, selected: &LiveLayout) -> (r:
    Result<(), String>)
    ensures
        match spec_validate_layouts(*request, *host, *selected) {
            None => r is Ok,
            Some(m) => r matches Err(e) && e@ == m,
        },
{
    if host.workspace_id != request.host_workspace_id || host.tab_id != request.host_tab_id {
        return Err(String::from_str("Hunkle's Herdr tab changed before the layout could be displayed"));
    }
    if selected.workspace_id != request.workspace_id || selected.tab_id != request.tab_id {
        return Err(String::from_str("The selected agent moved before its layout could be displayed"));
    }
    if host.zoomed || selected.zoomed {
        return Err(String::from_str("Agent layouts cannot be exchanged while either tab is zoomed"));
    }
    if host.focused_pane_id != request.host_pane_id {
        return Err(String::from_str("Hunkle must be focused before displaying an agent layout"));
    }
    if !selected.root.contains(request.pane_id.as_str()) {
        return Err(String::from_str("The selected agent moved before its layout could be displayed"));
    }
    Ok(())
}

} // verus!
