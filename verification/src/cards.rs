//! What the agent cards are as a whole: one card per tab, in the order the
//! tabs first occur, whose counts add up to the number of agents.
use vstd::prelude::*;
use crate::agent::AgentPane;
use crate::session::{card_groups, first_group_upto, same_tab};

verus! {

/// The number of agents that the cards count together.
pub open spec fn card_total(groups: Seq<(usize, usize)>) -> int
    decreases groups.len(),
{
    if groups.len() == 0 {
        0
    } else {
        card_total(groups.drop_last()) + groups.last().1
    }
}

proof fn lemma_card_total_update(groups: Seq<(usize, usize)>, k: int, first: usize, count: usize)
    requires
        0 <= k < groups.len(),
    ensures
        card_total(groups.update(k, (first, count))) == card_total(groups) - groups[k].1 + count,
    decreases groups.len(),
{
    let u = groups.update(k, (first, count));
    if k == groups.len() - 1 {
        assert(u.drop_last() =~= groups.drop_last());
    } else {
        lemma_card_total_update(groups.drop_last(), k, first, count);
        assert(u.drop_last() =~= groups.drop_last().update(k, (first, count)));
    }
}

proof fn lemma_count_at_most_total(groups: Seq<(usize, usize)>, k: int)
    requires
        0 <= k < groups.len(),
    ensures
        groups[k].1 <= card_total(groups),
    decreases groups.len(),
{
    if k < groups.len() - 1 {
        lemma_count_at_most_total(groups.drop_last(), k);
    }
    lemma_card_total_nonneg(groups.drop_last());
}

proof fn lemma_card_total_nonneg(groups: Seq<(usize, usize)>)
    ensures
        card_total(groups) >= 0,
    decreases groups.len(),
{
    if groups.len() > 0 {
        lemma_card_total_nonneg(groups.drop_last());
    }
}

proof fn lemma_first_group(agents: Seq<AgentPane>, groups: Seq<(usize, usize)>, a: AgentPane, n: int)
    ensures
        first_group_upto(agents, groups, a, n) matches Some(k) ==> 0 <= k < n && same_tab(agents[groups[k].0 as int], a),
        first_group_upto(agents, groups, a, n) is None ==> forall|k: int|
            0 <= k < n ==> !same_tab(agents[#[trigger] groups[k].0 as int], a),
    decreases n,
{
    if n > 0 {
        lemma_first_group(agents, groups, a, n - 1);
    }
}

/// The cards of a list of agents: each card's first agent is an agent of the
/// list, and the first agents come in list order; each card counts at least
/// one agent; no two cards show the same tab; and the counts add up to the
/// number of agents.
pub proof fn lemma_card_groups(agents: Seq<AgentPane>)
    requires
        agents.len() <= usize::MAX,
    ensures
        forall|k: int| 0 <= k < card_groups(agents).len() ==> (#[trigger] card_groups(agents)[k]).0 < agents.len(),
        forall|i: int, j: int|
            0 <= i < j < card_groups(agents).len() ==> (#[trigger] card_groups(agents)[i]).0 < (
            #[trigger] card_groups(agents)[j]).0,
        forall|k: int| 0 <= k < card_groups(agents).len() ==> (#[trigger] card_groups(agents)[k]).1 >= 1,
        forall|i: int, j: int|
            0 <= i < j < card_groups(agents).len() ==> !same_tab(
                agents[(#[trigger] card_groups(agents)[i]).0 as int],
                agents[(#[trigger] card_groups(agents)[j]).0 as int],
            ),
        card_total(card_groups(agents)) == agents.len(),
    decreases agents.len(),
{
    if agents.len() > 0 {
        let rest = agents.drop_last();
        lemma_card_groups(rest);
        let g = card_groups(rest);
        let a = agents.last();
        let n = agents.len() - 1;
        assert forall|k: int| 0 <= k < g.len() implies agents[(#[trigger] g[k]).0 as int] == rest[g[k].0 as int] by {}
        lemma_first_group(agents, g, a, g.len() as int);
        let c = card_groups(agents);
        match first_group_upto(agents, g, a, g.len() as int) {
            Some(k) => {
                lemma_count_at_most_total(g, k);
                assert(g[k].1 + 1 <= usize::MAX);
                assert(c == g.update(k, (g[k].0, (g[k].1 + 1) as usize)));
                lemma_card_total_update(g, k, g[k].0, (g[k].1 + 1) as usize);
                assert forall|i: int, j: int| 0 <= i < j < c.len() implies !same_tab(
                    agents[(#[trigger] c[i]).0 as int],
                    agents[(#[trigger] c[j]).0 as int],
                ) by {
                    assert(c[i].0 == g[i].0 && c[j].0 == g[j].0);
                    assert(!same_tab(rest[(g[i]).0 as int], rest[(g[j]).0 as int]));
                }
                assert forall|i: int, j: int| 0 <= i < j < c.len() implies (#[trigger] c[i]).0 < (#[trigger] c[j]).0 by {
                    assert(c[i].0 == g[i].0 && c[j].0 == g[j].0);
                    assert(g[i].0 < g[j].0);
                }
                assert forall|i: int| 0 <= i < c.len() implies (#[trigger] c[i]).1 >= 1 by {
                    if i != k {
                        assert(c[i] == g[i]);
                    }
                }
                assert forall|i: int| 0 <= i < c.len() implies (#[trigger] c[i]).0 < agents.len() by {
                    assert(c[i].0 == g[i].0);
                }
            },
            None => {
                assert(c == g.push((n as usize, 1usize)));
                assert(c.drop_last() =~= g);
                assert forall|i: int, j: int| 0 <= i < j < c.len() implies !same_tab(
                    agents[(#[trigger] c[i]).0 as int],
                    agents[(#[trigger] c[j]).0 as int],
                ) by {
                    if j == c.len() - 1 {
                        assert(c[i] == g[i]);
                        assert(!same_tab(agents[g[i].0 as int], a));
                        assert(agents[c[j].0 as int] == a);
                    } else {
                        assert(c[i] == g[i] && c[j] == g[j]);
                        assert(!same_tab(rest[(g[i]).0 as int], rest[(g[j]).0 as int]));
                    }
                }
                assert forall|i: int, j: int| 0 <= i < j < c.len() implies (#[trigger] c[i]).0 < (#[trigger] c[j]).0 by {
                    if j == c.len() - 1 {
                        assert(c[i] == g[i]);
                        assert(g[i].0 < rest.len());
                    } else {
                        assert(c[i] == g[i] && c[j] == g[j]);
                        assert(g[i].0 < g[j].0);
                    }
                }
                assert forall|i: int| 0 <= i < c.len() implies (#[trigger] c[i]).1 >= 1 by {
                    if i < g.len() {
                        assert(c[i] == g[i]);
                    }
                }
                assert forall|i: int| 0 <= i < c.len() implies (#[trigger] c[i]).0 < agents.len() by {
                    if i < g.len() {
                        assert(c[i] == g[i]);
                    }
                }
            },
        }
    }
}

} // verus!
