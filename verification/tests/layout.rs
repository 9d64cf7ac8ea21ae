use hunkle::keyed::TextTable;
use hunkle::layout::{
    layout_around_host, layout_without_host, pane_locations, saved_layout_matches, AgentLayout,
    LayoutDirection, LiveLayoutNode, LivePaneLocation, HOST_SPLIT_RATIO_BITS,
};

fn pane(id: &str) -> LiveLayoutNode {
    LiveLayoutNode::Pane(id.to_owned())
}

fn split(direction: &str, ratio: f32, first: LiveLayoutNode, second: LiveLayoutNode) -> LiveLayoutNode {
    LiveLayoutNode::Split {
        direction: if direction == "right" {
            LayoutDirection::Right
        } else {
            LayoutDirection::Down
        },
        ratio_bits: ratio.to_bits(),
        first: Box::new(first),
        second: Box::new(second),
    }
}

fn agent_layout(root: LiveLayoutNode) -> AgentLayout {
    AgentLayout { root }
}

fn panes_of(node: &LiveLayoutNode) -> Vec<String> {
    let mut panes = Vec::new();
    node.collect_panes(&mut panes);
    panes
}

#[test]
fn remaps_known_panes_in_saved_multi_pane_layouts() {
    let mut layout = agent_layout(split(
        "down",
        0.4,
        pane("w1:p2"),
        split("right", 0.7, pane("w1:p3"), pane("w1:p4")),
    ));
    let mut panes = TextTable::new();
    panes.insert(
        "w1:p3".to_owned(),
        LivePaneLocation {
            pane_id: "w2:p8".to_owned(),
            tab_id: "w2:t1".to_owned(),
        },
    );
    layout.remap_known(&panes);

    assert_eq!(
        layout,
        agent_layout(split(
            "down",
            0.4,
            pane("w1:p2"),
            split("right", 0.7, pane("w2:p8"), pane("w1:p4")),
        ))
    );
}

#[test]
fn remapping_refuses_an_unknown_pane() {
    let layout = split("right", 0.5, pane("w1:p1"), pane("w1:p9"));
    let mut panes = TextTable::new();
    panes.insert(
        "w1:p1".to_owned(),
        LivePaneLocation {
            pane_id: "w2:p1".to_owned(),
            tab_id: "w2:t1".to_owned(),
        },
    );
    assert_eq!(
        layout.remap(&panes),
        Err("Saved layout pane w1:p9 is unavailable".to_owned())
    );
}

#[test]
fn removing_a_pane_keeps_every_other_pane() {
    let tree = split(
        "right",
        0.6,
        split("down", 0.4, pane("w1:p1"), pane("w1:p8")),
        pane("w1:p2"),
    );
    let without = tree.without_pane("w1:p8").unwrap();
    assert_eq!(panes_of(&without), vec!["w1:p1".to_owned(), "w1:p2".to_owned()]);
    assert_eq!(without, split("right", 0.6, pane("w1:p1"), pane("w1:p2")));
    assert_eq!(pane("w1:p1").without_pane("w1:p1"), None);
    assert_eq!(tree.pane_count(), 3);
    assert_eq!(tree.first_pane(), "w1:p1");
}

#[test]
fn hunkle_keeps_its_side_when_an_agent_is_placed_beside_it() {
    let current = split("down", 0.3, pane("agent"), pane("hunkle"));
    let placed = layout_around_host(&current, "hunkle", pane("new"));
    assert_eq!(placed, split("down", 0.3, pane("new"), pane("hunkle")));

    let alone = layout_around_host(&pane("hunkle"), "hunkle", pane("new"));
    assert_eq!(
        alone,
        LiveLayoutNode::Split {
            direction: LayoutDirection::Right,
            ratio_bits: HOST_SPLIT_RATIO_BITS,
            first: Box::new(pane("hunkle")),
            second: Box::new(pane("new")),
        }
    );
    assert_eq!(f32::from_bits(HOST_SPLIT_RATIO_BITS), 0.6);
}

#[test]
fn the_displayed_layout_must_hold_hunkle() {
    assert_eq!(
        layout_without_host(&pane("w1:p1"), "w1:p7"),
        Err("Hunkle is missing from the displayed agent layout".to_owned())
    );
    assert_eq!(layout_without_host(&pane("w1:p7"), "w1:p7"), Ok(None));
    let saved = agent_layout(split("right", 0.5, pane("host"), split("down", 0.5, pane("a"), pane("b"))));
    assert!(saved_layout_matches(&saved, &split("right", 0.5, pane("b"), pane("a")), "host"));
    assert!(!saved_layout_matches(&saved, &pane("a"), "host"));
}

#[test]
fn pane_locations_refuse_a_pane_listed_twice() {
    let host = split("right", 0.5, pane("h"), pane("a"));
    let selected = pane("b");
    let located = pane_locations(&[(&host, "t1"), (&selected, "t2")]).ok().unwrap();
    assert_eq!(located.entries.len(), 3);
    let duplicate = pane("a");
    assert_eq!(
        pane_locations(&[(&host, "t1"), (&duplicate, "t2")]).err().unwrap(),
        "Herdr returned duplicate panes in the saved layouts"
    );
}
