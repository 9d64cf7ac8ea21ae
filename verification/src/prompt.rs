//! The Herdr prompt: a command line that runs in the pane below, and the pane
//! picker that chooses where a new agent starts. Paths are held as text.
use vstd::prelude::*;
use crate::agent::{clone_opt_string, str_eq};
use crate::input::TextInput;
use crate::text::{chars_of, all_whitespace, trim};

verus! {

#[derive(Debug, Clone, Copy, PartialEq, Eq, Structural)]
pub enum AgentPaneDirection {
    Up,
    Right,
    Down,
    Left,
}

impl AgentPaneDirection {
    pub fn as_str(self) -> (r: &'static str)
        ensures
            self == AgentPaneDirection::Up ==> r@ == "up"@,
            self == AgentPaneDirection::Right ==> r@ == "right"@,
            self == AgentPaneDirection::Down ==> r@ == "down"@,
            self == AgentPaneDirection::Left ==> r@ == "left"@,
    {
        match self {
            AgentPaneDirection::Up => "up",
            AgentPaneDirection::Right => "right",
            AgentPaneDirection::Down => "down",
            AgentPaneDirection::Left => "left",
        }
    }
}

/// What a click or the pane picker's focus points at: a pane, the edge of a
/// pane where a split would open, or anything else on screen.
#[derive(Debug, Clone, Copy, PartialEq, Eq, Structural)]
pub enum HitTarget {
    AgentPane(usize),
    AgentPaneSplit(usize, AgentPaneDirection),
    Other,
}

/// A pane of the Herdr tab, in cells.
#[derive(Debug)]
pub struct HerdrPaneRect {
    pub pane_id: String,
    pub x: u16,
    pub y: u16,
    pub width: u16,
    pub height: u16,
}

/// The panes of the Herdr tab that hosts Hunkle.
#[derive(Debug)]
pub struct HerdrPaneLayout {
    pub workspace_id: String,
    pub x: u16,
    pub y: u16,
    pub width: u16,
    pub height: u16,
    pub panes: Vec<HerdrPaneRect>,
}

pub open spec fn dir_code(d: AgentPaneDirection) -> int {
    match d {
        AgentPaneDirection::Up => 1,
        AgentPaneDirection::Right => 2,
        AgentPaneDirection::Down => 3,
        AgentPaneDirection::Left => 4,
    }
}

/// The position of a focus in the picker's cycle: five stops per pane.
pub open spec fn spec_ordinal(focus: HitTarget) -> Option<int> {
    match focus {
        HitTarget::AgentPane(i) => Some(i * 5),
        HitTarget::AgentPaneSplit(i, d) => Some(i * 5 + dir_code(d)),
        HitTarget::Other => None,
    }
}

pub open spec fn spec_from_ordinal(n: nat) -> HitTarget {
    let i = (n / 5) as usize;
    let r = n % 5;
    if r == 0 {
        HitTarget::AgentPane(i)
    } else if r == 1 {
        HitTarget::AgentPaneSplit(i, AgentPaneDirection::Up)
    } else if r == 2 {
        HitTarget::AgentPaneSplit(i, AgentPaneDirection::Right)
    } else if r == 3 {
        HitTarget::AgentPaneSplit(i, AgentPaneDirection::Down)
    } else {
        HitTarget::AgentPaneSplit(i, AgentPaneDirection::Left)
    }
}

/// The focus one stop on (or back) in a cycle of `count` stops, wrapping
/// around; a focus off the cycle starts from the first stop, one past it
/// from the last.
pub open spec fn cycled_focus(focus: Option<HitTarget>, count: int, backwards: bool) -> Option<HitTarget> {
    let cur = match focus {
        Some(f) => match spec_ordinal(f) {
            Some(k) => if k < count {
                k
            } else {
                count - 1
            },
            None => 0,
        },
        None => 0,
    };
    let next = if backwards {
        if cur == 0 {
            count - 1
        } else {
            cur - 1
        }
    } else {
        (cur + 1) % count
    };
    Some(spec_from_ordinal(next as nat))
}

proof fn lemma_ordinal_of_position(m: nat)
    requires
        m / 5 <= usize::MAX,
    ensures
        spec_ordinal(spec_from_ordinal(m)) == Some(m as int),
{
    let i = m / 5;
    vstd::arithmetic::div_mod::lemma_fundamental_div_mod(m as int, 5);
    assert(m == i * 5 + m % 5);
    assert((i as usize) as int == i);
}

proof fn lemma_position_of_ordinal(f: HitTarget)
    requires
        spec_ordinal(f) is Some,
    ensures
        spec_from_ordinal(spec_ordinal(f)->0 as nat) == f,
{
    match f {
        HitTarget::AgentPane(i) => {
            let m = (i * 5) as nat;
            assert(m / 5 == i && m % 5 == 0) by (nonlinear_arith)
                requires
                    m == i * 5,
                    i >= 0,
            ;
        },
        HitTarget::AgentPaneSplit(i, d) => {
            let c = dir_code(d);
            let m = (i * 5 + c) as nat;
            assert(m / 5 == i && m % 5 == c) by (nonlinear_arith)
                requires
                    m == i * 5 + c,
                    i >= 0,
                    1 <= c <= 4,
            ;
        },
        HitTarget::Other => {},
    }
}

/// Stepping the pane focus on and then back (or back and then on) returns
/// to a focus on the cycle.
pub proof fn lemma_cycle_round_trip(f: HitTarget, count: int, backwards: bool)
    requires
        0 < count,
        count / 5 <= usize::MAX,
        spec_ordinal(f) matches Some(o) && o < count,
    ensures
        cycled_focus(cycled_focus(Some(f), count, backwards), count, !backwards) == Some(f),
{
    let o = spec_ordinal(f)->0;
    assert(o >= 0) by {
        match f {
            HitTarget::AgentPane(i) => {},
            HitTarget::AgentPaneSplit(i, d) => {},
            HitTarget::Other => {},
        }
    }
    let next = if backwards {
        if o == 0 {
            count - 1
        } else {
            o - 1
        }
    } else {
        (o + 1) % count
    };
    assert(0 <= next < count);
    assert(next / 5 <= count / 5) by (nonlinear_arith)
        requires
            0 <= next < count,
    ;
    lemma_ordinal_of_position(next as nat);
    lemma_position_of_ordinal(f);
    if !backwards {
        if o + 1 < count {
            vstd::arithmetic::div_mod::lemma_small_mod((o + 1) as nat, count as nat);
        } else {
            vstd::arithmetic::div_mod::lemma_mod_self_0(count);
        }
    } else {
        if o > 0 {
            vstd::arithmetic::div_mod::lemma_small_mod(o as nat, count as nat);
        } else {
            vstd::arithmetic::div_mod::lemma_mod_self_0(count);
        }
    }
}

/// The focus after `k` forward steps in a cycle of `count` stops.
pub open spec fn cycled_times(focus: Option<HitTarget>, count: int, k: nat) -> Option<HitTarget>
    decreases k,
{
    if k == 0 {
        focus
    } else {
        cycled_focus(cycled_times(focus, count, (k - 1) as nat), count, false)
    }
}

proof fn lemma_mod_below_twice(x: int, m: int)
    requires
        0 < m,
        0 <= x < 2 * m,
    ensures
        x % m == (if x < m {
            x
        } else {
            x - m
        }),
{
    if x < m {
        vstd::arithmetic::div_mod::lemma_small_mod(x as nat, m as nat);
    } else {
        vstd::arithmetic::div_mod::lemma_fundamental_div_mod(x, m);
        vstd::arithmetic::div_mod::lemma_small_mod((x - m) as nat, m as nat);
        vstd::arithmetic::div_mod::lemma_fundamental_div_mod(x - m, m);
        assert(m * (x / m) + x % m == m * ((x - m) / m) + (x - m) % m + m);
        assert(x / m == (x - m) / m + 1) by (nonlinear_arith)
            requires
                m * (x / m) + x % m == m * ((x - m) / m) + (x - m) % m + m,
                0 <= x % m < m,
                0 <= (x - m) % m < m,
                m > 0,
        {
        }
        assert(m * (x / m) == m * ((x - m) / m) + m) by (nonlinear_arith)
            requires
                x / m == (x - m) / m + 1,
        ;
    }
}

/// From a focus on a cycle of `count` stops (five per pane), `k` forward
/// steps reach the stop `k` places on, wrapping around: so `count` steps
/// come back to the focus, and the steps before visit every other stop
/// exactly once.
pub proof fn lemma_cycle_forward(f: HitTarget, count: int, k: nat)
    requires
        0 < count,
        count % 5 == 0,
        count / 5 <= usize::MAX,
        spec_ordinal(f) matches Some(o) && o < count,
    ensures
        cycled_times(Some(f), count, k) == Some(spec_from_ordinal(((spec_ordinal(f)->0 + k) % count) as nat)),
    decreases k,
{
    let o = spec_ordinal(f)->0;
    assert(o >= 0) by {
        match f {
            HitTarget::AgentPane(i) => {},
            HitTarget::AgentPaneSplit(i, d) => {},
            HitTarget::Other => {},
        }
    }
    if k == 0 {
        vstd::arithmetic::div_mod::lemma_small_mod(o as nat, count as nat);
        lemma_position_of_ordinal(f);
    } else {
        lemma_cycle_forward(f, count, (k - 1) as nat);
        let p = (o + k - 1) % count;
        vstd::arithmetic::div_mod::lemma_mod_bound(o + k - 1, count);
        assert(p / 5 <= count / 5) by (nonlinear_arith)
            requires
                0 <= p < count,
        ;
        lemma_ordinal_of_position(p as nat);
        vstd::arithmetic::div_mod::lemma_add_mod_noop(o + k - 1, 1, count);
        vstd::arithmetic::div_mod::lemma_small_mod(1, count as nat);
    }
}

/// The stops reached within one round of the cycle are all different.
pub proof fn lemma_cycle_visits_distinct(o: int, count: int, j: int, k: int)
    requires
        0 <= o < count,
        0 <= j < k < count,
    ensures
        (o + j) % count != (o + k) % count,
{
    lemma_mod_below_twice(o + j, count);
    lemma_mod_below_twice(o + k, count);
}

/// The cycle position of a pane focus.
pub fn pane_focus_ordinal(focus: HitTarget) -> (r: Option<usize>)
    requires
        match focus {
            HitTarget::AgentPane(i) => i * 5 <= usize::MAX,
            HitTarget::AgentPaneSplit(i, _) => i * 5 + 4 <= usize::MAX,
            HitTarget::Other => true,
        },
    ensures
        match (r, spec_ordinal(focus)) {
            (Some(a), Some(b)) => a == b,
            (None, None) => true,
            _ => false,
        },
{
    match focus {
        HitTarget::AgentPane(index) => Some(index * 5),
        HitTarget::AgentPaneSplit(index, AgentPaneDirection::Up) => Some(index * 5 + 1),
        HitTarget::AgentPaneSplit(index, AgentPaneDirection::Right) => Some(index * 5 + 2),
        HitTarget::AgentPaneSplit(index, AgentPaneDirection::Down) => Some(index * 5 + 3),
        HitTarget::AgentPaneSplit(index, AgentPaneDirection::Left) => Some(index * 5 + 4),
        HitTarget::Other => None,
    }
}

/// The pane focus at a cycle position.
pub fn pane_focus_from_ordinal(ordinal: usize) -> (r: HitTarget)
    ensures
        r == spec_from_ordinal(ordinal as nat),
{
    let index = ordinal / 5;
    let rest = ordinal % 5;
    if rest == 0 {
        HitTarget::AgentPane(index)
    } else if rest == 1 {
        HitTarget::AgentPaneSplit(index, AgentPaneDirection::Up)
    } else if rest == 2 {
        HitTarget::AgentPaneSplit(index, AgentPaneDirection::Right)
    } else if rest == 3 {
        HitTarget::AgentPaneSplit(index, AgentPaneDirection::Down)
    } else {
        HitTarget::AgentPaneSplit(index, AgentPaneDirection::Left)
    }
}

/// A pane focus survives the trip through its cycle position, and every
/// cycle position is the position of the focus found there.
pub proof fn lemma_ordinal_round_trip(focus: HitTarget, n: nat)
    requires
        n <= usize::MAX,
    ensures
        spec_ordinal(focus) matches Some(k) ==> spec_from_ordinal(k as nat) == focus,
        spec_ordinal(spec_from_ordinal(n)) == Some(n as int),
{
    match focus {
        HitTarget::AgentPane(i) => {
            assert((i * 5) / 5 == i) by (nonlinear_arith);
            assert((i * 5) % 5 == 0) by (nonlinear_arith);
        },
        HitTarget::AgentPaneSplit(i, d) => {
            let c = dir_code(d);
            assert(1 <= c <= 4);
            assert((i * 5 + c) / 5 == i) by (nonlinear_arith)
                requires
                    1 <= c <= 4,
                    i >= 0,
            ;
            assert((i * 5 + c) % 5 == c) by (nonlinear_arith)
                requires
                    1 <= c <= 4,
                    i >= 0,
            ;
        },
        HitTarget::Other => {},
    }
    assert(n == (n / 5) * 5 + n % 5) by (nonlinear_arith);
}

pub open spec fn spec_opposite(d: AgentPaneDirection) -> AgentPaneDirection {
    match d {
        AgentPaneDirection::Up => AgentPaneDirection::Down,
        AgentPaneDirection::Down => AgentPaneDirection::Up,
        AgentPaneDirection::Left => AgentPaneDirection::Right,
        AgentPaneDirection::Right => AgentPaneDirection::Left,
    }
}

pub fn opposite_direction(direction: AgentPaneDirection) -> (r: AgentPaneDirection)
    ensures
        r == spec_opposite(direction),
{
    match direction {
        AgentPaneDirection::Up => AgentPaneDirection::Down,
        AgentPaneDirection::Down => AgentPaneDirection::Up,
        AgentPaneDirection::Left => AgentPaneDirection::Right,
        AgentPaneDirection::Right => AgentPaneDirection::Left,
    }
}

/// The opposite of the opposite direction is the direction itself.
pub proof fn lemma_opposite_involution(d: AgentPaneDirection)
    ensures
        spec_opposite(spec_opposite(d)) == d,
        spec_opposite(d) != d,
{
}

/// The first pane that is not Hunkle's own, else the first pane.
pub open spec fn spec_initial_focus(panes: Seq<HerdrPaneRect>, host: Seq<char>) -> Option<HitTarget> {
    if exists|i: int| 0 <= i < panes.len() && panes[i].pane_id@ != host {
        let i = choose|i: int|
            0 <= i < panes.len() && panes[i].pane_id@ != host && forall|j: int|
                0 <= j < i ==> panes[j].pane_id@ == host;
        Some(HitTarget::AgentPane(i as usize))
    } else if panes.len() > 0 {
        Some(HitTarget::AgentPane(0))
    } else {
        None
    }
}

/// Where the pane picker's focus starts: the first pane other than Hunkle's.
pub fn initial_pane_focus(layout: &HerdrPaneLayout, host_pane_id: &str) -> (r: Option<HitTarget>)
    ensures
        r matches Some(HitTarget::AgentPane(i)) ==> i < layout.panes@.len() && (layout.panes@[i as int].pane_id@ != host_pane_id@
            || forall|j: int| 0 <= j < layout.panes@.len() ==> layout.panes@[j].pane_id@ == host_pane_id@) && forall|j: int|
            0 <= j < i ==> layout.panes@[j].pane_id@ == host_pane_id@,
        r is None <==> layout.panes@.len() == 0,
        r is Some ==> r matches Some(HitTarget::AgentPane(_)),
        layout.panes@.len() > 0 && (forall|j: int| 0 <= j < layout.panes@.len() ==> layout.panes@[j].pane_id@ == host_pane_id@)
            ==> r == Some(HitTarget::AgentPane(0)),
{
    let mut i: usize = 0;
    while i < layout.panes.len()
        invariant
            i <= layout.panes.len(),
            forall|j: int| 0 <= j < i ==> layout.panes@[j].pane_id@ == host_pane_id@,
        decreases layout.panes.len() - i,
    {
        if !str_eq(layout.panes[i].pane_id.as_str(), host_pane_id) {
            return Some(HitTarget::AgentPane(i));
        }
        i = i + 1;
    }
    if layout.panes.len() > 0 {
        Some(HitTarget::AgentPane(0))
    } else {
        None
    }
}

/// The index of the first pane other than Hunkle's, or the number of panes.
pub open spec fn first_other_pane(panes: Seq<HerdrPaneRect>, host: Seq<char>) -> int
    decreases panes.len(),
{
    if panes.len() == 0 {
        0
    } else if panes[0].pane_id@ != host {
        0
    } else {
        1 + first_other_pane(panes.drop_first(), host)
    }
}

/// Where the pane picker's focus starts: the first pane other than Hunkle's,
/// else the first pane; nothing when there are no panes.
pub open spec fn spec_initial_pane_focus(layout: HerdrPaneLayout, host: Seq<char>) -> Option<HitTarget> {
    if layout.panes@.len() == 0 {
        None
    } else if first_other_pane(layout.panes@, host) < layout.panes@.len() {
        Some(HitTarget::AgentPane(first_other_pane(layout.panes@, host) as usize))
    } else {
        Some(HitTarget::AgentPane(0))
    }
}

proof fn lemma_first_other_pane(panes: Seq<HerdrPaneRect>, host: Seq<char>)
    ensures
        0 <= first_other_pane(panes, host) <= panes.len(),
        forall|j: int| 0 <= j < first_other_pane(panes, host) ==> panes[j].pane_id@ == host,
        first_other_pane(panes, host) < panes.len() ==> panes[first_other_pane(panes, host)].pane_id@ != host,
    decreases panes.len(),
{
    if panes.len() > 0 && panes[0].pane_id@ == host {
        lemma_first_other_pane(panes.drop_first(), host);
        assert forall|j: int| 0 <= j < first_other_pane(panes, host) implies panes[j].pane_id@ == host by {
            if j > 0 {
                assert(panes[j] == panes.drop_first()[j - 1]);
            }
        }
    }
}

/// What `initial_pane_focus` promises is the spec's focus.
proof fn lemma_initial_pane_focus(layout: HerdrPaneLayout, host: Seq<char>, r: Option<HitTarget>)
    requires
        r matches Some(HitTarget::AgentPane(i)) ==> i < layout.panes@.len() && (layout.panes@[i as int].pane_id@ != host
            || forall|j: int| 0 <= j < layout.panes@.len() ==> layout.panes@[j].pane_id@ == host) && forall|j: int|
            0 <= j < i ==> layout.panes@[j].pane_id@ == host,
        r is None <==> layout.panes@.len() == 0,
        r is Some ==> r matches Some(HitTarget::AgentPane(_)),
        layout.panes@.len() > 0 && (forall|j: int| 0 <= j < layout.panes@.len() ==> layout.panes@[j].pane_id@ == host)
            ==> r == Some(HitTarget::AgentPane(0)),
    ensures
        r == spec_initial_pane_focus(layout, host),
{
    lemma_first_other_pane(layout.panes@, host);
    let f = first_other_pane(layout.panes@, host);
    if let Some(HitTarget::AgentPane(i)) = r {
        if layout.panes@[i as int].pane_id@ != host {
            if f < i {
                assert(layout.panes@[f].pane_id@ == host);
            }
            if f > i {
                assert(layout.panes@[i as int].pane_id@ == host);
            }
        } else {
            if f < layout.panes@.len() {
                assert(layout.panes@[f].pane_id@ == host);
            }
        }
    }
}

/// Twice the horizontal and vertical center of a pane.
pub open spec fn center_x(p: HerdrPaneRect) -> int {
    p.x * 2 + p.width
}

pub open spec fn center_y(p: HerdrPaneRect) -> int {
    p.y * 2 + p.height
}

pub open spec fn abs(v: int) -> int {
    if v < 0 {
        -v
    } else {
        v
    }
}

/// The distance of a pane from the current one in `direction`: how far off
/// the axis it lies, then how far along it; none when it is not that way.
pub open spec fn spec_score(cur: HerdrPaneRect, p: HerdrPaneRect, d: AgentPaneDirection) -> Option<(int, int)> {
    let (cx, cy, x, y) = (center_x(cur), center_y(cur), center_x(p), center_y(p));
    match d {
        AgentPaneDirection::Up => if y < cy {
            Some((abs(x - cx), cy - y))
        } else {
            None
        },
        AgentPaneDirection::Down => if y > cy {
            Some((abs(x - cx), y - cy))
        } else {
            None
        },
        AgentPaneDirection::Left => if x < cx {
            Some((abs(y - cy), cx - x))
        } else {
            None
        },
        AgentPaneDirection::Right => if x > cx {
            Some((abs(y - cy), x - cx))
        } else {
            None
        },
    }
}

/// A pane is a candidate in a direction exactly when its center lies that
/// way from the current pane's center, and its distance along that direction
/// is how far it lies that way.
pub proof fn lemma_score_looks_in_direction(cur: HerdrPaneRect, p: HerdrPaneRect)
    ensures
        (spec_score(cur, p, AgentPaneDirection::Right) is Some) == (center_x(p) > center_x(cur)),
        (spec_score(cur, p, AgentPaneDirection::Left) is Some) == (center_x(p) < center_x(cur)),
        (spec_score(cur, p, AgentPaneDirection::Down) is Some) == (center_y(p) > center_y(cur)),
        (spec_score(cur, p, AgentPaneDirection::Up) is Some) == (center_y(p) < center_y(cur)),
        spec_score(cur, p, AgentPaneDirection::Right) matches Some(s) ==> s.1 == center_x(p) - center_x(cur),
        spec_score(cur, p, AgentPaneDirection::Left) matches Some(s) ==> s.1 == center_x(cur) - center_x(p),
        spec_score(cur, p, AgentPaneDirection::Down) matches Some(s) ==> s.1 == center_y(p) - center_y(cur),
        spec_score(cur, p, AgentPaneDirection::Up) matches Some(s) ==> s.1 == center_y(cur) - center_y(p),
{
}

/// The neighbour chosen in a direction lies that way: to the right of the
/// current pane for Right, to the left for Left, below for Down, above for Up.
pub proof fn lemma_neighbor_lies_in_direction(panes: Seq<HerdrPaneRect>, current: int, d: AgentPaneDirection, n: int)
    requires
        is_neighbor(panes, current, d, n),
    ensures
        d == AgentPaneDirection::Right ==> center_x(panes[n]) > center_x(panes[current]),
        d == AgentPaneDirection::Left ==> center_x(panes[n]) < center_x(panes[current]),
        d == AgentPaneDirection::Down ==> center_y(panes[n]) > center_y(panes[current]),
        d == AgentPaneDirection::Up ==> center_y(panes[n]) < center_y(panes[current]),
{
    lemma_score_looks_in_direction(panes[current], panes[n]);
}

/// Whether pane `i` with score `a` comes before pane `j` with score `b`.
pub open spec fn score_before(a: (int, int), i: int, b: (int, int), j: int) -> bool {
    a.0 < b.0 || (a.0 == b.0 && a.1 < b.1) || (a.0 == b.0 && a.1 == b.1 && i < j)
}

/// The nearest pane in a direction: the one least off the axis, then the
/// nearest along it, then the first listed.
pub open spec fn is_neighbor(panes: Seq<HerdrPaneRect>, current: int, d: AgentPaneDirection, n: int) -> bool {
    &&& 0 <= n < panes.len()
    &&& spec_score(panes[current], panes[n], d) is Some
    &&& forall|j: int|
        0 <= j < panes.len() && j != n && #[trigger] spec_score(panes[current], panes[j], d) is Some
            ==> score_before(
            spec_score(panes[current], panes[n], d)->0,
            n,
            spec_score(panes[current], panes[j], d)->0,
            j,
        )
}

fn score(cur: &HerdrPaneRect, p: &HerdrPaneRect, direction: AgentPaneDirection) -> (r: Option<(i32, i32)>)
    ensures
        match (r, spec_score(*cur, *p, direction)) {
            (Some(a), Some(b)) => a.0 == b.0 && a.1 == b.1,
            (None, None) => true,
            _ => false,
        },
{
    let cx: i32 = (cur.x as i32) * 2 + cur.width as i32;
    let cy: i32 = (cur.y as i32) * 2 + cur.height as i32;
    let x: i32 = (p.x as i32) * 2 + p.width as i32;
    let y: i32 = (p.y as i32) * 2 + p.height as i32;
    let dx: i32 = if x < cx { cx - x } else { x - cx };
    let dy: i32 = if y < cy { cy - y } else { y - cy };
    match direction {
        AgentPaneDirection::Up => if y < cy { Some((dx, cy - y)) } else { None },
        AgentPaneDirection::Down => if y > cy { Some((dx, y - cy)) } else { None },
        AgentPaneDirection::Left => if x < cx { Some((dy, cx - x)) } else { None },
        AgentPaneDirection::Right => if x > cx { Some((dy, x - cx)) } else { None },
    }
}

/// The nearest pane from `current_index` in `direction`.
pub fn neighboring_pane(layout: &HerdrPaneLayout, current_index: usize, direction: AgentPaneDirection) -> (r: Option<usize>)
    ensures
        current_index >= layout.panes@.len() ==> r is None,
        current_index < layout.panes@.len() ==> match r {
            Some(n) => is_neighbor(layout.panes@, current_index as int, direction, n as int),
            None => forall|j: int|
                0 <= j < layout.panes@.len() ==> #[trigger] spec_score(
                    layout.panes@[current_index as int],
                    layout.panes@[j],
                    direction,
                ) is None,
        },
{
    if current_index >= layout.panes.len() {
        return None;
    }
    let cur = &layout.panes[current_index];
    let ghost panes = layout.panes@;
    let mut best: Option<(usize, i32, i32)> = None;
    let mut i: usize = 0;
    while i < layout.panes.len()
        invariant
            i <= layout.panes.len(),
            panes == layout.panes@,
            current_index < panes.len(),
            *cur == panes[current_index as int],
            best is None ==> forall|j: int|
                0 <= j < i ==> #[trigger] spec_score(panes[current_index as int], panes[j], direction) is None,
            best matches Some(b) ==> {
                &&& b.0 < i
                &&& spec_score(panes[current_index as int], panes[b.0 as int], direction) == Some(
                    (b.1 as int, b.2 as int),
                )
                &&& forall|j: int|
                    0 <= j < i && j != b.0 && #[trigger] spec_score(
                        panes[current_index as int],
                        panes[j],
                        direction,
                    ) is Some ==> score_before(
                        (b.1 as int, b.2 as int),
                        b.0 as int,
                        spec_score(panes[current_index as int], panes[j], direction)->0,
                        j,
                    )
            },
        decreases layout.panes.len() - i,
    {
        match score(cur, &layout.panes[i], direction) {
            Some((secondary, primary)) => {
                let take = match best {
                    None => true,
                    Some((_, bs, bp)) => secondary < bs || (secondary == bs && primary < bp),
                };
                if take {
                    best = Some((i, secondary, primary));
                }
            },
            None => {},
        }
        i = i + 1;
    }
    match best {
        Some((n, _, _)) => Some(n),
        None => None,
    }
}

/// A new agent waiting for the user to choose where it starts.
pub struct PendingAgent {
    pub request_id: u64,
    pub path: String,
    pub host_pane_id: String,
    pub layout: Option<HerdrPaneLayout>,
    pub pane_focus: Option<HitTarget>,
    pub session_id: Option<String>,
}

/// What a finished Herdr command reports.
pub struct HerdrPromptCompletion {
    pub message: String,
    pub reopen_path: Option<String>,
}

/// What one poll of the prompt found.
pub struct HerdrPromptPoll {
    pub changed: bool,
    pub completion: Option<Result<HerdrPromptCompletion, String>>,
}

/// Start an agent in place of an existing pane.
pub struct ReplacePane {
    pub path: String,
    pub workspace_id: String,
    pub pane_id: String,
    pub session_id: Option<String>,
}

/// Start an agent in a new pane split off an existing one.
pub struct SplitPane {
    pub path: String,
    pub pane_id: String,
    pub direction: AgentPaneDirection,
    pub session_id: Option<String>,
}

/// What activating the pane picker's focus starts.
pub enum AgentDispatch {
    Replace(ReplacePane),
    Split(SplitPane),
}

/// The prompt's state; the caller runs the Herdr commands it hands out and
/// reports their results back.
pub struct HerdrPrompt {
    pub input: TextInput,
    pub error: Option<String>,
    pub sending: bool,
    pub next_agent_request_id: u64,
    pub pending_agent: Option<PendingAgent>,
}

/// The pending agent, whether anything changed, and the error, once the
/// loaded layouts arrived in order: a layout for the pending agent opens the
/// picker on it, with the focus on its first pane other than Hunkle's; a
/// failure for it closes the picker and is the error; others are dropped.
pub open spec fn applied_layouts(
    pending: Option<PendingAgent>,
    results: Seq<(u64, Result<HerdrPaneLayout, String>)>,
) -> (Option<PendingAgent>, bool, Option<String>)
    decreases results.len(),
{
    if results.len() == 0 {
        (pending, false, None)
    } else {
        let before = applied_layouts(pending, results.drop_last());
        let id = results.last().0;
        match before.0 {
            Some(a) => if a.request_id == id {
                match results.last().1 {
                    Ok(layout) => (
                        Some(
                            PendingAgent {
                                request_id: a.request_id,
                                path: a.path,
                                host_pane_id: a.host_pane_id,
                                layout: Some(layout),
                                pane_focus: spec_initial_pane_focus(layout, a.host_pane_id@),
                                session_id: a.session_id,
                            },
                        ),
                        true,
                        before.2,
                    ),
                    Err(e) => (None, true, Some(e)),
                }
            } else {
                before
            },
            None => before,
        }
    }
}

/// Without a pending agent, loaded layouts change nothing.
proof fn lemma_applied_layouts_none(results: Seq<(u64, Result<HerdrPaneLayout, String>)>)
    ensures
        applied_layouts(None, results) == (None::<PendingAgent>, false, None::<String>),
    decreases results.len(),
{
    if results.len() > 0 {
        lemma_applied_layouts_none(results.drop_last());
    }
}

/// `after` and `r` are what opening the pane picker for an agent in `path`,
/// resuming `session_id` if given, makes of `before`: refused while a command
/// runs, outside Herdr, or when Herdr did not name Hunkle's pane; otherwise a
/// new request, whose id and Hunkle's pane are handed back.
pub open spec fn prepared(
    before: HerdrPrompt,
    after: HerdrPrompt,
    r: Result<(u64, String), String>,
    path: String,
    session_id: Option<String>,
    herdr_env: Option<String>,
    host_pane_env: Option<String>,
) -> bool {
    &&& before.sending ==> (is_err_with(r, "Another Herdr command is still running"@)
                && after == before)
    &&& !before.sending && !is_one(herdr_env) ==> (is_err_with(
                r,
                "Agents can only be started inside Herdr"@,
            ) && after == before)
    &&& !before.sending && is_one(herdr_env) && host_pane_env is None ==> (is_err_with(
                r,
                "Herdr did not identify Hunkle's pane"@,
            ) && after == before)
    &&& !before.sending && is_one(herdr_env) && host_pane_env is Some ==> {
                &&& (match r {
                    Ok((id, h)) => id == after.next_agent_request_id && h@ == host_pane_env->0@,
                    Err(_) => false,
                })
                &&& after.next_agent_request_id == before.next_agent_request_id.wrapping_add(1)
                &&& after.error is None
                &&& after.sending == before.sending
                &&& after.input == before.input
                &&& (match after.pending_agent {
                    Some(p) => p.request_id == after.next_agent_request_id && p.path == path
                        && p.host_pane_id@ == host_pane_env->0@ && p.layout is None && p.pane_focus
                        is None && p.session_id == session_id,
                    None => false,
                })
            }
}

pub open spec fn msg(e: Option<String>, s: Seq<char>) -> bool {
    match e {
        Some(v) => v@ == s,
        None => false,
    }
}

/// The result is an error with message `m`.
pub open spec fn is_err_with<T>(r: Result<T, String>, m: Seq<char>) -> bool {
    match r {
        Err(e) => e@ == m,
        Ok(_) => false,
    }
}

pub open spec fn is_one(v: Option<String>) -> bool {
    match v {
        Some(s) => s@ == "1"@,
        None => false,
    }
}

impl HerdrPrompt {
    pub fn new() -> (r: Self)
        ensures
            !r.sending,
            r.pending_agent is None,
            r.error is None,
            r.next_agent_request_id == 0,
    {
        HerdrPrompt {
            input: TextInput::new(),
            error: None,
            sending: false,
            next_agent_request_id: 0,
            pending_agent: None,
        }
    }

    pub fn open(&mut self)
        ensures
            final(self).input.text@.len() == 0,
            final(self).input.focused,
            final(self).error is None,
            final(self).sending == old(self).sending,
            final(self).pending_agent == old(self).pending_agent,
    {
        self.input.clear();
        self.input.focus();
        self.error = None;
    }

    /// Sends the typed command to the pane below: hands back the command for
    /// the caller to run, or records why it cannot be sent.
    pub fn submit(&mut self) -> (r: Option<String>)
        ensures
            old(self).sending ==> r is None && *final(self) == *old(self),
            !old(self).sending && old(self).pending_agent is Some ==> (r is None && msg(
                final(self).error,
                "Cancel agent pane selection first"@,
            ) && !final(self).sending),
            !old(self).sending && old(self).pending_agent is None && trim(old(self).input.text@).len()
                == 0 ==> (r is None && msg(final(self).error, "Enter a command or prompt"@)
                && !final(self).sending),
            !old(self).sending && old(self).pending_agent is None && trim(old(self).input.text@).len()
                > 0 ==> ((match r {
                Some(c) => c@ == old(self).input.text@,
                None => false,
            }) && final(self).error is None && final(self).sending),
            final(self).input == old(self).input,
            final(self).pending_agent == old(self).pending_agent,
    {
        if self.sending {
            return None;
        }
        if self.pending_agent.is_some() {
            proof {
                reveal_strlit("Cancel agent pane selection first");
            }
            self.error = Some(String::from_str("Cancel agent pane selection first"));
            return None;
        }
        let chars = chars_of(self.input.text());
        if all_whitespace(&chars) {
            proof {
                reveal_strlit("Enter a command or prompt");
            }
            self.error = Some(String::from_str("Enter a command or prompt"));
            return None;
        }
        let command = self.input.text.clone();
        self.error = None;
        self.sending = true;
        Some(command)
    }

    /// Opens the pane picker for a new agent in `path`, resuming `session_id`
    /// if given. `herdr_env` and `host_pane_env` are the values of `HERDR_ENV`
    /// and `HERDR_PANE_ID`. Hands back the request id and Hunkle's pane, for
    /// which the caller loads the layout.
    pub fn prepare_agent_session(
        &mut self,
        path: String,
        session_id: Option<String>,
        herdr_env: Option<String>,
        host_pane_env: Option<String>,
    ) -> (r: Result<(u64, String), String>)
        ensures
            prepared(*old(self), *final(self), r, path, session_id, herdr_env, host_pane_env),
    {
        if self.sending {
            proof {
                reveal_strlit("Another Herdr command is still running");
            }
            return Err(String::from_str("Another Herdr command is still running"));
        }
        let one = String::from_str("1");
        proof {
            reveal_strlit("1");
        }
        let inside = match &herdr_env {
            Some(v) => *v == one,
            None => false,
        };
        if !inside {
            proof {
                reveal_strlit("Agents can only be started inside Herdr");
            }
            return Err(String::from_str("Agents can only be started inside Herdr"));
        }
        let host_pane_id = match host_pane_env {
            Some(h) => h,
            None => {
                proof {
                    reveal_strlit("Herdr did not identify Hunkle's pane");
                }
                return Err(String::from_str("Herdr did not identify Hunkle's pane"));
            },
        };
        self.error = None;
        self.next_agent_request_id = self.next_agent_request_id.wrapping_add(1);
        let request_id = self.next_agent_request_id;
        self.pending_agent = Some(
            PendingAgent {
                request_id,
                path,
                host_pane_id: host_pane_id.clone(),
                layout: None,
                pane_focus: None,
                session_id,
            },
        );
        Ok((request_id, host_pane_id))
    }

    /// Opens the pane picker for a new agent.
    pub fn prepare_agent(&mut self, path: String, herdr_env: Option<String>, host_pane_env: Option<String>) -> (r:
        Result<(u64, String), String>)
        ensures
            prepared(*old(self), *final(self), r, path, None, herdr_env, host_pane_env),
    {
        self.prepare_agent_session(path, None, herdr_env, host_pane_env)
    }

    /// Opens the pane picker to restore a stashed agent's session.
    pub fn prepare_stashed_agent(
        &mut self,
        path: String,
        session_id: String,
        herdr_env: Option<String>,
        host_pane_env: Option<String>,
    ) -> (r: Result<(u64, String), String>)
        ensures
            prepared(*old(self), *final(self), r, path, Some(session_id), herdr_env, host_pane_env),
    {
        self.prepare_agent_session(path, Some(session_id), herdr_env, host_pane_env)
    }

    pub fn agent_pane_picker_open(&self) -> (r: bool)
        ensures
            r == self.pending_agent is Some,
    {
        self.pending_agent.is_some()
    }

    pub fn agent_pane_layout(&self) -> (r: Option<&HerdrPaneLayout>)
        ensures
            match (r, self.pending_agent) {
                (Some(l), Some(p)) => p.layout == Some(*l),
                (None, Some(p)) => p.layout is None,
                (None, None) => true,
                _ => false,
            },
    {
        match &self.pending_agent {
            Some(p) => match &p.layout {
                Some(l) => Some(l),
                None => None,
            },
            None => None,
        }
    }

    pub fn agent_pane_focus(&self) -> (r: Option<HitTarget>)
        ensures
            r == match self.pending_agent {
                Some(p) => p.pane_focus,
                None => None,
            },
    {
        match &self.pending_agent {
            Some(p) => p.pane_focus,
            None => None,
        }
    }

    /// Steps the focus to the next (or previous) stop, wrapping around.
    pub fn cycle_agent_pane_focus(&mut self, backwards: bool)
        requires
            old(self).pending_agent matches Some(p) && p.layout matches Some(l) ==> l.panes@.len()
                * 5 <= usize::MAX,
        ensures
            final(self).input == old(self).input,
            final(self).sending == old(self).sending,
            match (old(self).pending_agent, final(self).pending_agent) {
                (None, None) => true,
                (Some(p0), Some(p1)) => {
                    &&& p1.request_id == p0.request_id
                    &&& p1.path == p0.path
                    &&& p1.host_pane_id == p0.host_pane_id
                    &&& p1.layout == p0.layout
                    &&& p1.session_id == p0.session_id
                    &&& match p0.layout {
                        None => p1.pane_focus == p0.pane_focus,
                        Some(l) => if l.panes@.len() == 0 {
                            p1.pane_focus is None
                        } else {
                            p1.pane_focus == cycled_focus(p0.pane_focus, (l.panes@.len() * 5) as int, backwards)
                        },
                    }
                },
                _ => false,
            },
    {
        let pending = match &mut self.pending_agent {
            Some(p) => p,
            None => return,
        };
        let count = match &pending.layout {
            Some(layout) => layout.panes.len(),
            None => return,
        };
        if count == 0 {
            pending.pane_focus = None;
            return;
        }
        let focus_count = count * 5;
        let current = match pending.pane_focus {
            Some(HitTarget::AgentPane(index)) => if index < focus_count / 5 {
                index * 5
            } else {
                focus_count - 1
            },
            Some(HitTarget::AgentPaneSplit(index, d)) => if index < focus_count / 5 {
                index * 5 + match d {
                    AgentPaneDirection::Up => 1,
                    AgentPaneDirection::Right => 2,
                    AgentPaneDirection::Down => 3,
                    AgentPaneDirection::Left => 4,
                }
            } else {
                focus_count - 1
            },
            _ => 0,
        };
        let next = if backwards {
            if current == 0 {
                focus_count - 1
            } else {
                current - 1
            }
        } else {
            (current + 1) % focus_count
        };
        pending.pane_focus = Some(pane_focus_from_ordinal(next));
    }

    /// Moves the focus in `direction`: from a pane to its edge; from an edge
    /// on to the neighbouring pane in that direction, or back to the pane
    /// from the opposite edge; from one edge to another.
    pub fn move_agent_pane_focus(&mut self, direction: AgentPaneDirection)
        ensures
            final(self).input == old(self).input,
            final(self).sending == old(self).sending,
            match (old(self).pending_agent, final(self).pending_agent) {
                (None, None) => true,
                (Some(p0), Some(p1)) => {
                    &&& p1.request_id == p0.request_id
                    &&& p1.path == p0.path
                    &&& p1.host_pane_id == p0.host_pane_id
                    &&& p1.layout == p0.layout
                    &&& p1.session_id == p0.session_id
                    &&& match p0.layout {
                        None => p1.pane_focus == p0.pane_focus,
                        Some(l) => match p0.pane_focus {
                            Some(HitTarget::AgentPane(i)) => if i < l.panes@.len() {
                                p1.pane_focus == Some(HitTarget::AgentPaneSplit(i, direction))
                            } else {
                                p1.pane_focus == spec_initial_focus(l.panes@, p0.host_pane_id@)
                            },
                            Some(HitTarget::AgentPaneSplit(i, edge)) => if i < l.panes@.len() {
                                if edge == direction {
                                    (exists|n: int| is_neighbor(l.panes@, i as int, direction, n)
                                        && p1.pane_focus == Some(HitTarget::AgentPane(n as usize)))
                                        || ((forall|j: int|
                                        0 <= j < l.panes@.len() ==> #[trigger] spec_score(
                                            l.panes@[i as int],
                                            l.panes@[j],
                                            direction,
                                        ) is None) && p1.pane_focus == p0.pane_focus)
                                } else if spec_opposite(edge) == direction {
                                    p1.pane_focus == Some(HitTarget::AgentPane(i))
                                } else {
                                    p1.pane_focus == Some(HitTarget::AgentPaneSplit(i, direction))
                                }
                            } else {
                                p1.pane_focus == spec_initial_focus(l.panes@, p0.host_pane_id@)
                            },
                            _ => p1.pane_focus == spec_initial_focus(l.panes@, p0.host_pane_id@),
                        },
                    }
                },
                _ => false,
            },
    {
        let pending = match &mut self.pending_agent {
            Some(p) => p,
            None => return,
        };
        let layout = match &pending.layout {
            Some(l) => l,
            None => return,
        };
        let focus = match pending.pane_focus {
            Some(f) => f,
            None => {
                let f = initial_pane_focus(layout, pending.host_pane_id.as_str());
                proof {
                    initial_focus_matches(layout.panes@, pending.host_pane_id@, f);
                }
                pending.pane_focus = f;
                return;
            },
        };
        let (current_index, edge) = match focus {
            HitTarget::AgentPane(index) => (index, None),
            HitTarget::AgentPaneSplit(index, edge) => (index, Some(edge)),
            HitTarget::Other => {
                let f = initial_pane_focus(layout, pending.host_pane_id.as_str());
                proof {
                    initial_focus_matches(layout.panes@, pending.host_pane_id@, f);
                }
                pending.pane_focus = f;
                return;
            },
        };
        if current_index >= layout.panes.len() {
            let f = initial_pane_focus(layout, pending.host_pane_id.as_str());
            proof {
                initial_focus_matches(layout.panes@, pending.host_pane_id@, f);
            }
            pending.pane_focus = f;
            return;
        }
        let next = match edge {
            None => Some(HitTarget::AgentPaneSplit(current_index, direction)),
            Some(edge) => if edge == direction {
                match neighboring_pane(layout, current_index, direction) {
                    Some(n) => Some(HitTarget::AgentPane(n)),
                    None => Some(focus),
                }
            } else if opposite_direction(edge) == direction {
                Some(HitTarget::AgentPane(current_index))
            } else {
                Some(HitTarget::AgentPaneSplit(current_index, direction))
            },
        };
        pending.pane_focus = next;
    }

    /// Replaces the destination of the pending agent.
    pub fn update_agent_destination(&mut self, path: String)
        ensures
            match (old(self).pending_agent, final(self).pending_agent) {
                (None, None) => true,
                (Some(p0), Some(p1)) => p1.path == path && p1.request_id == p0.request_id
                    && p1.host_pane_id == p0.host_pane_id && p1.layout == p0.layout && p1.pane_focus
                    == p0.pane_focus && p1.session_id == p0.session_id,
                _ => false,
            },
            final(self).sending == old(self).sending,
    {
        if let Some(pending) = &mut self.pending_agent {
            pending.path = path;
        }
    }

    pub fn agent_destination(&self) -> (r: Option<&str>)
        ensures
            match (r, self.pending_agent) {
                (Some(s), Some(p)) => s@ == p.path@,
                (None, None) => true,
                _ => false,
            },
    {
        match &self.pending_agent {
            Some(p) => Some(p.path.as_str()),
            None => None,
        }
    }

    pub fn agent_host_pane_id(&self) -> (r: Option<&str>)
        ensures
            match (r, self.pending_agent) {
                (Some(s), Some(p)) => s@ == p.host_pane_id@,
                (None, None) => true,
                _ => false,
            },
    {
        match &self.pending_agent {
            Some(p) => Some(p.host_pane_id.as_str()),
            None => None,
        }
    }

    /// Drops the pending agent; reports whether there was one.
    pub fn cancel_pending_agent(&mut self) -> (r: bool)
        ensures
            r == old(self).pending_agent is Some,
            final(self).pending_agent is None,
            final(self).sending == old(self).sending,
    {
        let had = self.pending_agent.is_some();
        self.pending_agent = None;
        had
    }

    /// Starts the agent in place of pane `index`: hands back the replacement
    /// for the caller to run, or says why it cannot start.
    pub fn select_agent_pane(&mut self, index: usize) -> (r: Result<ReplacePane, String>)
        ensures
            match old(self).pending_agent {
                None => is_err_with(r, "Agent pane selection is no longer open"@) && *final(self)
                    == *old(self),
                Some(p) => match p.layout {
                    None => is_err_with(r, "Herdr pane layout is still loading"@) && *final(self)
                        == *old(self),
                    Some(l) => if index >= l.panes@.len() {
                        is_err_with(r, "That Herdr pane is no longer available"@) && *final(self)
                            == *old(self)
                    } else if l.panes@[index as int].pane_id@ == p.host_pane_id@ {
                        is_err_with(r, "Hunkle cannot replace its own pane"@) && *final(self)
                            == *old(self)
                    } else {
                        &&& (match r {
                            Ok(d) => d.path == p.path && d.workspace_id@ == l.workspace_id@
                                && d.pane_id@ == l.panes@[index as int].pane_id@ && d.session_id
                                == p.session_id,
                            Err(_) => false,
                        })
                        &&& final(self).pending_agent is None
                        &&& final(self).error is None
                        &&& final(self).sending
                    },
                },
            },
    {
        let (workspace_id, pane_id) = match &self.pending_agent {
            None => {
                proof {
                    reveal_strlit("Agent pane selection is no longer open");
                }
                return Err(String::from_str("Agent pane selection is no longer open"));
            },
            Some(pending) => match &pending.layout {
                None => {
                    proof {
                        reveal_strlit("Herdr pane layout is still loading");
                    }
                    return Err(String::from_str("Herdr pane layout is still loading"));
                },
                Some(layout) => {
                    if index >= layout.panes.len() {
                        proof {
                            reveal_strlit("That Herdr pane is no longer available");
                        }
                        return Err(String::from_str("That Herdr pane is no longer available"));
                    }
                    if layout.panes[index].pane_id == pending.host_pane_id {
                        proof {
                            reveal_strlit("Hunkle cannot replace its own pane");
                        }
                        return Err(String::from_str("Hunkle cannot replace its own pane"));
                    }
                    (layout.workspace_id.clone(), layout.panes[index].pane_id.clone())
                },
            },
        };
        let pending = self.pending_agent.take().unwrap();
        self.error = None;
        self.sending = true;
        Ok(ReplacePane { path: pending.path, workspace_id, pane_id, session_id: pending.session_id })
    }

    /// Starts the agent in a new pane split off pane `index` in `direction`.
    pub fn split_agent_pane(&mut self, index: usize, direction: AgentPaneDirection) -> (r: Result<
        SplitPane,
        String,
    >)
        ensures
            match old(self).pending_agent {
                None => is_err_with(r, "Agent pane selection is no longer open"@) && *final(self)
                    == *old(self),
                Some(p) => match p.layout {
                    None => is_err_with(r, "Herdr pane layout is still loading"@) && *final(self)
                        == *old(self),
                    Some(l) => if index >= l.panes@.len() {
                        is_err_with(r, "That Herdr pane is no longer available"@) && *final(self)
                            == *old(self)
                    } else {
                        &&& (match r {
                            Ok(d) => d.path == p.path && d.pane_id@ == l.panes@[index as int].pane_id@
                                && d.direction == direction && d.session_id == p.session_id,
                            Err(_) => false,
                        })
                        &&& final(self).pending_agent is None
                        &&& final(self).error is None
                        &&& final(self).sending
                    },
                },
            },
    {
        let pane_id = match &self.pending_agent {
            None => {
                proof {
                    reveal_strlit("Agent pane selection is no longer open");
                }
                return Err(String::from_str("Agent pane selection is no longer open"));
            },
            Some(pending) => match &pending.layout {
                None => {
                    proof {
                        reveal_strlit("Herdr pane layout is still loading");
                    }
                    return Err(String::from_str("Herdr pane layout is still loading"));
                },
                Some(layout) => {
                    if index >= layout.panes.len() {
                        proof {
                            reveal_strlit("That Herdr pane is no longer available");
                        }
                        return Err(String::from_str("That Herdr pane is no longer available"));
                    }
                    layout.panes[index].pane_id.clone()
                },
            },
        };
        let pending = self.pending_agent.take().unwrap();
        self.error = None;
        self.sending = true;
        Ok(SplitPane { path: pending.path, pane_id, direction, session_id: pending.session_id })
    }

    /// Starts the agent where the focus points.
    pub fn activate_agent_pane_focus(&mut self) -> (r: Result<AgentDispatch, String>)
        ensures
            match old(self).pending_agent {
                Some(p) => match p.pane_focus {
                    Some(HitTarget::AgentPane(i)) => match r {
                        Ok(AgentDispatch::Replace(_)) => final(self).pending_agent is None
                            && final(self).sending,
                        Ok(AgentDispatch::Split(_)) => false,
                        Err(_) => *final(self) == *old(self),
                    },
                    Some(HitTarget::AgentPaneSplit(i, dir)) => match r {
                        Ok(AgentDispatch::Split(d)) => d.direction == dir && final(self).pending_agent
                            is None && final(self).sending,
                        Ok(AgentDispatch::Replace(_)) => false,
                        Err(_) => *final(self) == *old(self),
                    },
                    _ => is_err_with(r, "No Herdr pane position is selected"@) && *final(self)
                        == *old(self),
                },
                None => is_err_with(r, "No Herdr pane position is selected"@) && *final(self)
                    == *old(self),
            },
    {
        match self.agent_pane_focus() {
            Some(HitTarget::AgentPane(index)) => match self.select_agent_pane(index) {
                Ok(d) => Ok(AgentDispatch::Replace(d)),
                Err(e) => Err(e),
            },
            Some(HitTarget::AgentPaneSplit(index, direction)) => match self.split_agent_pane(
                index,
                direction,
            ) {
                Ok(d) => Ok(AgentDispatch::Split(d)),
                Err(e) => Err(e),
            },
            _ => {
                proof {
                    reveal_strlit("No Herdr pane position is selected");
                }
                Err(String::from_str("No Herdr pane position is selected"))
            },
        }
    }

    /// Opens the pane picker on a layout that is already known.
    pub fn show_agent_pane_picker(&mut self, path: String, host_pane_id: String, layout: HerdrPaneLayout)
        ensures
            final(self).next_agent_request_id == (if old(self).next_agent_request_id == u64::MAX {
                0
            } else {
                (old(self).next_agent_request_id + 1) as u64
            }),
            final(self).pending_agent matches Some(p) && p.request_id == final(self).next_agent_request_id
                && p.path == path && p.host_pane_id == host_pane_id && p.layout == Some(layout)
                && p.session_id is None && p.pane_focus == spec_initial_focus(layout.panes@, host_pane_id@),
            final(self).input == old(self).input,
            final(self).sending == old(self).sending,
    {
        self.next_agent_request_id = if self.next_agent_request_id == u64::MAX {
            0
        } else {
            self.next_agent_request_id + 1
        };
        let pane_focus = initial_pane_focus(&layout, host_pane_id.as_str());
        self.pending_agent = Some(PendingAgent {
            request_id: self.next_agent_request_id,
            path,
            host_pane_id,
            layout: Some(layout),
            pane_focus,
            session_id: None,
        });
    }

    /// Takes what arrived since the last poll: the loaded layouts first; a
    /// failed load is the completion, else the result of the command that was
    /// sent, if one came.
    pub fn poll(&mut self, layouts: Vec<(u64, Result<HerdrPaneLayout, String>)>, command: Option<Result<HerdrPromptCompletion, String>>) -> (r: HerdrPromptPoll)
        ensures
            old(self).pending_agent is None && command is None ==> !r.changed && r.completion is None,
            command is Some && old(self).pending_agent is None ==> r.changed && r.completion == command && !final(self).sending,
            final(self).pending_agent == applied_layouts(old(self).pending_agent, layouts@).0,
            final(self).error == old(self).error,
            final(self).next_agent_request_id == old(self).next_agent_request_id,
            match applied_layouts(old(self).pending_agent, layouts@).2 {
                Some(e) => r.changed && r.completion == Some(Err::<HerdrPromptCompletion, String>(e))
                    && final(self).sending == old(self).sending && final(self).input == old(self).input,
                None => match command {
                    Some(result) => r.changed && r.completion == Some(result) && !final(self).sending && (
                    result is Ok ==> final(self).input.text@.len() == 0) && (result is Err ==> final(self).input == old(self).input),
                    None => r.changed == applied_layouts(old(self).pending_agent, layouts@).1
                        && r.completion is None && final(self).sending == old(self).sending
                        && final(self).input == old(self).input,
                },
            },
    {
        let (changed, error) = self.apply_layouts(layouts);
        if let Some(e) = error {
            return HerdrPromptPoll { changed: true, completion: Some(Err(e)) };
        }
        match command {
            Some(result) => self.finish_command(result),
            None => HerdrPromptPoll { changed, completion: None },
        }
    }

    /// Takes the loaded layouts: the one for the pending agent opens the
    /// picker on it; a failure closes the picker and is reported.
    pub fn apply_layouts(&mut self, results: Vec<(u64, Result<HerdrPaneLayout, String>)>) -> (r: (
        bool,
        Option<String>,
    ))
        ensures
            final(self).sending == old(self).sending,
            final(self).input == old(self).input,
            final(self).error == old(self).error,
            final(self).next_agent_request_id == old(self).next_agent_request_id,
            final(self).pending_agent == applied_layouts(old(self).pending_agent, results@).0,
            r.0 == applied_layouts(old(self).pending_agent, results@).1,
            r.1 == applied_layouts(old(self).pending_agent, results@).2,
            old(self).pending_agent is None ==> !r.0 && r.1 is None && final(self).pending_agent is None,
    {
        let mut changed = false;
        let mut error: Option<String> = None;
        let mut results = results;
        let ghost all = results@;
        let ghost start = self.pending_agent;
        let ghost mut k: int = 0;
        proof {
            lemma_applied_layouts_none(all);
        }
        while results.len() > 0
            invariant
                self.sending == old(self).sending,
                self.input == old(self).input,
                self.error == old(self).error,
                self.next_agent_request_id == old(self).next_agent_request_id,
                start == old(self).pending_agent,
                0 <= k <= all.len(),
                results@ == all.skip(k),
                (self.pending_agent, changed, error) == applied_layouts(start, all.take(k)),
                start is None ==> applied_layouts(start, all) == (None::<PendingAgent>, false, None::<String>),
            decreases results.len(),
        {
            assert(results@[0] == all[k]);
            assert(all.take(k + 1).drop_last() =~= all.take(k));
            assert(all.take(k + 1).last() == all[k]);
            let (request_id, result) = results.remove(0);
            proof {
                assert(results@ =~= all.skip(k + 1));
                k = k + 1;
            }
            let matches = match &self.pending_agent {
                Some(pending) => pending.request_id == request_id,
                None => false,
            };
            if !matches {
                continue;
            }
            changed = true;
            match result {
                Ok(layout) => {
                    if let Some(pending) = &mut self.pending_agent {
                        let focus = initial_pane_focus(&layout, pending.host_pane_id.as_str());
                        proof {
                            lemma_initial_pane_focus(layout, pending.host_pane_id@, focus);
                        }
                        pending.pane_focus = focus;
                        pending.layout = Some(layout);
                    }
                },
                Err(e) => {
                    self.pending_agent = None;
                    error = Some(e);
                },
            }
        }
        assert(all.take(k) =~= all);
        (changed, error)
    }

    /// Takes the result of the Herdr command that was sent; a success clears the input.
    pub fn finish_command(&mut self, result: Result<HerdrPromptCompletion, String>) -> (r:
        HerdrPromptPoll)
        ensures
            r.changed,
            r.completion == Some(result),
            !final(self).sending,
            result is Ok ==> final(self).input.text@.len() == 0,
            result is Err ==> final(self).input == old(self).input,
            final(self).pending_agent == old(self).pending_agent,
            final(self).error == old(self).error,
            final(self).next_agent_request_id == old(self).next_agent_request_id,
    {
        self.sending = false;
        if result.is_ok() {
            self.input.clear();
        }
        HerdrPromptPoll { changed: true, completion: Some(result) }
    }
}

proof fn initial_focus_matches(panes: Seq<HerdrPaneRect>, host: Seq<char>, f: Option<HitTarget>)
    requires
        f matches Some(HitTarget::AgentPane(i)) ==> i < panes.len() && (panes[i as int].pane_id@ != host
            || forall|j: int| 0 <= j < panes.len() ==> panes[j].pane_id@ == host) && forall|j: int|
            0 <= j < i ==> panes[j].pane_id@ == host,
        f is None <==> panes.len() == 0,
        f is Some ==> f matches Some(HitTarget::AgentPane(_)),
        panes.len() > 0 && (forall|j: int| 0 <= j < panes.len() ==> panes[j].pane_id@ == host)
            ==> f == Some(HitTarget::AgentPane(0)),
    ensures
        f == spec_initial_focus(panes, host),
{
    if exists|i: int| 0 <= i < panes.len() && panes[i].pane_id@ != host {
        let w = choose|i: int| 0 <= i < panes.len() && panes[i].pane_id@ != host;
        assert(panes[w].pane_id@ != host);
        if let Some(HitTarget::AgentPane(k)) = f {
            assert(panes[k as int].pane_id@ != host);
            assert(forall|j: int| 0 <= j < k ==> panes[j].pane_id@ == host);
        }
        let i = choose|i: int|
            0 <= i < panes.len() && panes[i].pane_id@ != host && forall|j: int|
                0 <= j < i ==> panes[j].pane_id@ == host;
        if let Some(HitTarget::AgentPane(k)) = f {
            assert(panes[k as int].pane_id@ != host);
            if (i as usize) != k {
                if i < k {
                    assert(panes[i].pane_id@ == host);
                } else {
                    assert(panes[k as int].pane_id@ == host);
                }
            }
        }
    }
}

} // verus!
