use std::cell::RefCell;
use std::collections::HashMap;

use hunkle::display::{display_agent_with, rebuild_layout, restore_agent_layout_with};
use hunkle::json::{Json, JsonNumber};
use hunkle::keyed::TextTable;
use hunkle::layout::{AgentLayout, DisplayAgentRequest, LayoutDirection, LiveLayoutNode, LivePaneLocation};
use hunkle::replies::parse_layout_node;

fn text(value: &str) -> Json {
    Json::String(value.to_owned())
}

fn object(fields: Vec<(&str, Json)>) -> Json {
    Json::Object(fields.into_iter().map(|(key, value)| (key.to_owned(), value)).collect())
}

fn pane(pane_id: &str) -> Json {
    object(vec![("type", text("pane")), ("pane_id", text(pane_id))])
}

fn split(direction: &str, ratio: f32, first: Json, second: Json) -> Json {
    object(vec![
        ("type", text("split")),
        ("direction", text(direction)),
        (
            "ratio",
            Json::Number(JsonNumber {
                unsigned: None,
                f32_bits: Some(ratio.to_bits()),
            }),
        ),
        ("first", first),
        ("second", second),
    ])
}

fn layout(workspace_id: &str, tab_id: &str, focused_pane_id: &str, root: Json) -> Json {
    object(vec![(
        "result",
        object(vec![(
            "layout",
            object(vec![
                ("workspace_id", text(workspace_id)),
                ("tab_id", text(tab_id)),
                ("zoomed", Json::Bool(false)),
                ("focused_pane_id", text(focused_pane_id)),
                ("root", root),
            ]),
        )]),
    )])
}

fn agent_layout(root: Json) -> AgentLayout {
    AgentLayout {
        root: parse_layout_node(&root).unwrap(),
    }
}

fn moved(pane_id: &str, tab_id: &str) -> Json {
    object(vec![(
        "result",
        object(vec![(
            "move_result",
            object(vec![
                ("changed", Json::Bool(true)),
                ("pane", object(vec![("pane_id", text(pane_id)), ("tab_id", text(tab_id))])),
            ]),
        )]),
    )])
}

fn focused(pane_id: &str) -> Json {
    object(vec![(
        "result",
        object(vec![
            ("type", text("pane_info")),
            ("pane", object(vec![("pane_id", text(pane_id))])),
        ]),
    )])
}

fn swapped(source_pane_id: &str, target_pane_id: &str) -> Json {
    object(vec![(
        "result",
        object(vec![(
            "swap",
            object(vec![
                ("changed", Json::Bool(true)),
                ("source_pane_id", text(source_pane_id)),
                ("target_pane_id", text(target_pane_id)),
            ]),
        )]),
    )])
}

fn focused_param(params: &Json) -> String {
    match params {
        Json::Object(fields) => match &fields[0].1 {
            Json::String(pane_id) => pane_id.clone(),
            _ => panic!("focus without a pane"),
        },
        _ => panic!("focus without parameters"),
    }
}

fn ratio_text(bits: u32) -> String {
    f32::from_bits(bits).to_string()
}

fn ratio_close(a: u32, b: u32) -> bool {
    (f32::from_bits(a) - f32::from_bits(b)).abs() < 0.000_01
}

fn request(
    pane_id: &str,
    workspace_id: &str,
    tab_id: &str,
    allow_cross_workspace: bool,
    saved_layout: Option<AgentLayout>,
) -> DisplayAgentRequest {
    DisplayAgentRequest {
        pane_id: pane_id.to_owned(),
        workspace_id: workspace_id.to_owned(),
        tab_id: tab_id.to_owned(),
        host_pane_id: "w1:p1".to_owned(),
        host_workspace_id: "w1".to_owned(),
        host_tab_id: "w1:t1".to_owned(),
        allow_cross_workspace,
        saved_layout,
    }
}

#[test]
fn selecting_an_agent_in_the_displayed_tab_captures_the_layout() {
    let exports = RefCell::new(0);
    let result = display_agent_with(
        &|_: &Vec<String>| -> Result<Json, String> { panic!("An already displayed layout must not move panes") },
        &|_: &String, _: &Json| {
            *exports.borrow_mut() += 1;
            Ok(layout(
                "w1",
                "w1:t1",
                "w1:p1",
                split("right", 0.6, pane("w1:p1"), pane("w1:p3")),
            ))
        },
        &ratio_text,
        &ratio_close,
        request("w1:p3", "w1", "w1:t1", false, None),
    )
    .unwrap();
    assert_eq!(exports.into_inner(), 1);
    assert_eq!(result.displayed, result.parked.unwrap());
    assert_eq!(result.pane_locations.entries.len(), 2);
    assert!(result
        .pane_locations
        .entries
        .iter()
        .all(|(pane, location)| location.pane_id == *pane && location.tab_id == "w1:t1"));
}

#[test]
fn exchanges_complete_saved_layouts_between_tabs() {
    let outgoing = || {
        split(
            "right",
            0.7,
            split("down", 0.3, pane("w1:p2"), pane("w1:p6")),
            pane("w1:p4"),
        )
    };
    let selected = || {
        split(
            "down",
            0.4,
            pane("w1:p3"),
            split("right", 0.8, pane("w1:p5"), pane("w1:p7")),
        )
    };
    let commands = RefCell::new(Vec::new());
    let exports = RefCell::new(0);

    display_agent_with(
        &|args: &Vec<String>| {
            commands.borrow_mut().push(args.clone());
            Ok(moved(&args[2], &args[4]))
        },
        &|method: &String, params: &Json| {
            if method == "pane.focus" {
                return Ok(focused(&focused_param(params)));
            }
            assert_eq!(method, "layout.export");
            *exports.borrow_mut() += 1;
            let count = *exports.borrow();
            Ok(match count {
                1 => layout(
                    "w1",
                    "w1:t1",
                    "w1:p1",
                    split("right", 0.6, pane("w1:p1"), outgoing()),
                ),
                2 => layout("w1", "w1:t2", "w1:p3", selected()),
                3 => layout(
                    "w1",
                    "w1:t1",
                    "w1:p1",
                    split("right", 0.6, pane("w1:p1"), selected()),
                ),
                4 => layout("w1", "w1:t2", "w1:p2", outgoing()),
                _ => panic!("unexpected layout export"),
            })
        },
        &ratio_text,
        &ratio_close,
        request("w1:p3", "w1", "w1:t2", false, None),
    )
    .unwrap();

    let commands = commands.into_inner();
    let moves = commands
        .iter()
        .map(|args| {
            (
                args[2].as_str(),
                args[4].as_str(),
                args[6].as_str(),
                args[8].as_str(),
                args[10].as_str(),
            )
        })
        .collect::<Vec<_>>();
    assert_eq!(
        moves,
        vec![
            ("w1:p2", "w1:t2", "w1:p3", "right", "0.5"),
            ("w1:p4", "w1:t2", "w1:p2", "right", "0.7"),
            ("w1:p6", "w1:t2", "w1:p2", "down", "0.3"),
            ("w1:p3", "w1:t1", "w1:p1", "right", "0.6"),
            ("w1:p5", "w1:t1", "w1:p3", "down", "0.4"),
            ("w1:p7", "w1:t1", "w1:p5", "right", "0.8"),
        ]
    );
    assert!(commands
        .iter()
        .all(|args| args.last().unwrap() == "--no-focus"));
    assert_eq!(exports.into_inner(), 4);
}

#[test]
fn exchanges_a_saved_layout_with_hunkle_on_the_right() {
    let host = || split("right", 0.35, pane("w1:p2"), pane("w1:p1"));
    let target = || split("right", 0.35, pane("w1:p3"), pane("w1:p1"));
    let commands = RefCell::new(Vec::new());
    let exports = RefCell::new(0);

    let result = display_agent_with(
        &|args: &Vec<String>| {
            commands.borrow_mut().push(args.clone());
            if args[1] == "swap" {
                Ok(swapped(&args[3], &args[5]))
            } else {
                Ok(moved(&args[2], &args[4]))
            }
        },
        &|_: &String, _: &Json| {
            *exports.borrow_mut() += 1;
            let count = *exports.borrow();
            Ok(match count {
                1 => layout("w1", "w1:t1", "w1:p1", host()),
                2 => layout("w1", "w1:t2", "w1:p3", pane("w1:p3")),
                3 => layout("w1", "w1:t1", "w1:p1", target()),
                4 => layout("w1", "w1:t2", "w1:p2", pane("w1:p2")),
                _ => panic!("unexpected layout export"),
            })
        },
        &ratio_text,
        &ratio_close,
        request("w1:p3", "w1", "w1:t2", false, Some(agent_layout(target()))),
    )
    .unwrap();

    let commands = commands.into_inner();
    assert_eq!(commands.len(), 3);
    assert_eq!(commands[0][1], "move");
    assert_eq!(commands[0][2], "w1:p2");
    assert_eq!(commands[1][1], "move");
    assert_eq!(commands[1][2], "w1:p3");
    assert_eq!(commands[1][6], "w1:p1");
    assert_eq!(commands[2][1], "swap");
    assert_eq!(commands[2][3], "w1:p1");
    assert_eq!(commands[2][5], "w1:p3");
    assert_eq!(result.displayed, agent_layout(target()));
    assert_eq!(result.parked.unwrap(), agent_layout(host()));
}

fn insert(node: &mut LiveLayoutNode, target: &str, moved: &str, direction: LayoutDirection, ratio_bits: u32) -> bool {
    match node {
        LiveLayoutNode::Pane(pane_id) if pane_id == target => {
            *node = LiveLayoutNode::Split {
                direction,
                ratio_bits,
                first: Box::new(LiveLayoutNode::Pane(pane_id.clone())),
                second: Box::new(LiveLayoutNode::Pane(moved.to_owned())),
            };
            true
        }
        LiveLayoutNode::Pane(_) => false,
        LiveLayoutNode::Split { first, second, .. } => {
            insert(first, target, moved, direction, ratio_bits) || insert(second, target, moved, direction, ratio_bits)
        }
    }
}

fn swap(node: &mut LiveLayoutNode, source: &str, target: &str) {
    match node {
        LiveLayoutNode::Pane(pane_id) if pane_id == source => {
            *pane_id = target.to_owned();
        }
        LiveLayoutNode::Pane(pane_id) if pane_id == target => {
            *pane_id = source.to_owned();
        }
        LiveLayoutNode::Pane(_) => {}
        LiveLayoutNode::Split { first, second, .. } => {
            swap(first, source, target);
            swap(second, source, target);
        }
    }
}

#[test]
fn rebuilds_an_arbitrary_six_pane_tree_from_a_deep_hunkle_leaf() {
    let desired = agent_layout(split(
        "right",
        0.63,
        split(
            "down",
            0.41,
            pane("w1:p2"),
            split("right", 0.28, pane("w1:p3"), pane("w1:p1")),
        ),
        split(
            "down",
            0.57,
            pane("w1:p4"),
            split("right", 0.46, pane("w1:p5"), pane("w1:p6")),
        ),
    ))
    .root;
    let actual = RefCell::new(LiveLayoutNode::Pane("w1:p1".to_owned()));
    let mut pane_ids = Vec::new();
    desired.collect_panes(&mut pane_ids);
    let mut panes = TextTable::new();
    for pane_id in pane_ids {
        let tab_id = if pane_id == "w1:p1" { "w1:t1" } else { "w1:t2" };
        panes.insert(
            pane_id.clone(),
            LivePaneLocation {
                pane_id,
                tab_id: tab_id.to_owned(),
            },
        );
    }
    let move_count = RefCell::new(0);
    let swap_count = RefCell::new(0);

    rebuild_layout(
        &|args: &Vec<String>| match args[1].as_str() {
            "move" => {
                *move_count.borrow_mut() += 1;
                let direction = match args[8].as_str() {
                    "right" => LayoutDirection::Right,
                    "down" => LayoutDirection::Down,
                    other => panic!("unexpected direction {other}"),
                };
                let ratio: f32 = args[10].parse().unwrap();
                assert!(insert(
                    &mut actual.borrow_mut(),
                    &args[6],
                    &args[2],
                    direction,
                    ratio.to_bits(),
                ));
                Ok(moved(&args[2], &args[4]))
            }
            "swap" => {
                *swap_count.borrow_mut() += 1;
                swap(&mut actual.borrow_mut(), &args[3], &args[5]);
                Ok(swapped(&args[3], &args[5]))
            }
            other => panic!("unexpected command {other}"),
        },
        &ratio_text,
        &desired,
        "w1:t1",
        &mut panes,
    )
    .unwrap();

    assert_eq!(*actual.borrow(), desired);
    assert_eq!(move_count.into_inner(), 5);
    assert_eq!(swap_count.into_inner(), 2);
    assert!(panes.entries.iter().all(|(_, location)| location.tab_id == "w1:t1"));
}

#[test]
fn restores_a_saved_agent_pane_below_hunkle() {
    let outgoing = || pane("w1:p2");
    let selected = || split("right", 0.5, pane("w1:p8"), pane("w1:p3"));
    let saved = || {
        split(
            "right",
            0.6,
            split("down", 0.4, pane("w1:p1"), pane("w1:p8")),
            pane("w1:p3"),
        )
    };
    let commands = RefCell::new(Vec::new());
    let exports = RefCell::new(0);

    let result = display_agent_with(
        &|args: &Vec<String>| {
            commands.borrow_mut().push(args.clone());
            Ok(moved(&args[2], &args[4]))
        },
        &|method: &String, params: &Json| {
            if method == "pane.focus" {
                return Ok(focused(&focused_param(params)));
            }
            *exports.borrow_mut() += 1;
            let count = *exports.borrow();
            Ok(match count {
                1 => layout(
                    "w1",
                    "w1:t1",
                    "w1:p1",
                    split("right", 0.6, pane("w1:p1"), outgoing()),
                ),
                2 => layout("w1", "w1:t2", "w1:p3", selected()),
                3 => layout("w1", "w1:t1", "w1:p1", saved()),
                4 => layout("w1", "w1:t2", "w1:p2", outgoing()),
                _ => panic!("unexpected layout export"),
            })
        },
        &ratio_text,
        &ratio_close,
        request("w1:p3", "w1", "w1:t2", false, Some(agent_layout(saved()))),
    )
    .unwrap();

    let commands = commands.into_inner();
    assert_eq!(commands.len(), 3);
    assert_eq!(commands[0][2], "w1:p2");
    assert_eq!(commands[1][2], "w1:p3");
    assert_eq!(commands[1][8], "right");
    assert_eq!(commands[1][10], "0.6");
    assert_eq!(commands[2][2], "w1:p8");
    assert_eq!(commands[2][8], "down");
    assert_eq!(commands[2][10], "0.4");
    assert_eq!(result.displayed, agent_layout(saved()));
}

#[test]
fn restores_an_agent_owned_pane_below_hunkle_when_rebuild_fails() {
    let outgoing = || {
        split(
            "right",
            0.6,
            split("down", 0.4, pane("w1:p1"), pane("w1:p8")),
            pane("w1:p2"),
        )
    };
    let selected = || pane("w1:p3");
    let commands = RefCell::new(0);
    let exports = RefCell::new(0);
    let tabs = RefCell::new(HashMap::from([
        ("w1:p1".to_owned(), "w1:t1".to_owned()),
        ("w1:p2".to_owned(), "w1:t1".to_owned()),
        ("w1:p3".to_owned(), "w1:t2".to_owned()),
        ("w1:p8".to_owned(), "w1:t1".to_owned()),
    ]));

    let result = display_agent_with(
        &|args: &Vec<String>| {
            *commands.borrow_mut() += 1;
            if *commands.borrow() == 2 {
                return Err("agent layout rebuild interrupted".to_owned());
            }
            assert_ne!(tabs.borrow().get(&args[2]), Some(&args[4]));
            tabs.borrow_mut().insert(args[2].clone(), args[4].clone());
            Ok(moved(&args[2], &args[4]))
        },
        &|_: &String, _: &Json| {
            *exports.borrow_mut() += 1;
            let count = *exports.borrow();
            Ok(match count {
                1 | 3 => layout("w1", "w1:t1", "w1:p1", outgoing()),
                2 | 4 => layout("w1", "w1:t2", "w1:p3", selected()),
                _ => panic!("unexpected layout export"),
            })
        },
        &ratio_text,
        &ratio_close,
        request("w1:p3", "w1", "w1:t2", false, None),
    );

    assert_eq!(
        result.unwrap_err(),
        "agent layout rebuild interrupted; restored the previous layouts"
    );
    assert_eq!(commands.into_inner(), 7);
    assert_eq!(exports.into_inner(), 4);
    assert_eq!(tabs.borrow().get("w1:p8").map(String::as_str), Some("w1:t1"));
}

#[test]
fn displays_an_agent_when_hunkle_is_the_only_host_pane() {
    let commands = RefCell::new(Vec::new());
    let exports = RefCell::new(0);
    let result = display_agent_with(
        &|args: &Vec<String>| {
            commands.borrow_mut().push(args.clone());
            Ok(moved(&args[2], &args[4]))
        },
        &|_: &String, _: &Json| {
            *exports.borrow_mut() += 1;
            let count = *exports.borrow();
            Ok(match count {
                1 => layout("w1", "w1:t1", "w1:p1", pane("w1:p1")),
                2 => layout("w1", "w1:t2", "w1:p3", pane("w1:p3")),
                3 => layout(
                    "w1",
                    "w1:t1",
                    "w1:p1",
                    split("right", 0.6, pane("w1:p1"), pane("w1:p3")),
                ),
                _ => panic!("unexpected layout export"),
            })
        },
        &ratio_text,
        &ratio_close,
        request("w1:p3", "w1", "w1:t2", false, None),
    )
    .unwrap();

    let commands = commands.into_inner();
    assert_eq!(commands.len(), 1);
    assert_eq!(commands[0][2], "w1:p3");
    assert_eq!(commands[0][4], "w1:t1");
    assert!(result.parked.is_none());
    assert_eq!(exports.into_inner(), 3);
}

#[test]
fn restores_both_layouts_when_reconstruction_fails() {
    let outgoing = || split("down", 0.7, pane("w1:p2"), pane("w1:p4"));
    let selected = || pane("w1:p3");
    let commands = RefCell::new(0);
    let exports = RefCell::new(0);
    let tabs = RefCell::new(HashMap::from([
        ("w1:p2".to_owned(), "w1:t1".to_owned()),
        ("w1:p3".to_owned(), "w1:t2".to_owned()),
        ("w1:p4".to_owned(), "w1:t1".to_owned()),
    ]));

    let result = display_agent_with(
        &|args: &Vec<String>| {
            *commands.borrow_mut() += 1;
            if *commands.borrow() == 2 {
                Err("pane move interrupted".to_owned())
            } else {
                assert_ne!(tabs.borrow().get(&args[2]), Some(&args[4]));
                tabs.borrow_mut().insert(args[2].clone(), args[4].clone());
                Ok(moved(&args[2], &args[4]))
            }
        },
        &|_: &String, _: &Json| {
            *exports.borrow_mut() += 1;
            let count = *exports.borrow();
            Ok(match count {
                1 | 3 => layout(
                    "w1",
                    "w1:t1",
                    "w1:p1",
                    split("right", 0.6, pane("w1:p1"), outgoing()),
                ),
                2 | 4 => layout("w1", "w1:t2", "w1:p3", selected()),
                _ => panic!("unexpected layout export"),
            })
        },
        &ratio_text,
        &ratio_close,
        request("w1:p3", "w1", "w1:t2", false, None),
    );

    assert_eq!(
        result.unwrap_err(),
        "pane move interrupted; restored the previous layouts"
    );
    assert_eq!(commands.into_inner(), 7);
    assert_eq!(exports.into_inner(), 4);
}

#[test]
fn restores_both_layouts_when_selected_reconstruction_fails() {
    let outgoing = || pane("w1:p2");
    let selected = || split("down", 0.4, pane("w1:p3"), pane("w1:p5"));
    let commands = RefCell::new(0);
    let exports = RefCell::new(0);
    let tabs = RefCell::new(HashMap::from([
        ("w1:p2".to_owned(), "w1:t1".to_owned()),
        ("w1:p3".to_owned(), "w1:t2".to_owned()),
        ("w1:p5".to_owned(), "w1:t2".to_owned()),
    ]));

    let result = display_agent_with(
        &|args: &Vec<String>| {
            *commands.borrow_mut() += 1;
            if *commands.borrow() == 3 {
                Err("selected layout move interrupted".to_owned())
            } else {
                assert_ne!(tabs.borrow().get(&args[2]), Some(&args[4]));
                tabs.borrow_mut().insert(args[2].clone(), args[4].clone());
                Ok(moved(&args[2], &args[4]))
            }
        },
        &|_: &String, _: &Json| {
            *exports.borrow_mut() += 1;
            let count = *exports.borrow();
            Ok(match count {
                1 | 3 => layout(
                    "w1",
                    "w1:t1",
                    "w1:p1",
                    split("right", 0.6, pane("w1:p1"), outgoing()),
                ),
                2 | 4 => layout("w1", "w1:t2", "w1:p3", selected()),
                _ => panic!("unexpected layout export"),
            })
        },
        &ratio_text,
        &ratio_close,
        request("w1:p3", "w1", "w1:t2", false, None),
    );

    assert_eq!(
        result.unwrap_err(),
        "selected layout move interrupted; restored the previous layouts"
    );
    assert_eq!(commands.into_inner(), 7);
    assert_eq!(exports.into_inner(), 4);
}

#[test]
fn tracks_reassigned_pane_ids_while_exchanging_workspaces() {
    let outgoing = || pane("w1:p2");
    let selected = || split("down", 0.4, pane("w2:p3"), pane("w2:p5"));
    let commands = RefCell::new(Vec::new());
    let exports = RefCell::new(0);

    display_agent_with(
        &|args: &Vec<String>| {
            commands.borrow_mut().push(args.clone());
            let count = commands.borrow().len();
            Ok(match count {
                1 => moved("w2:p8", "w2:t1"),
                2 => moved("w1:p8", "w1:t1"),
                3 => moved("w1:p9", "w1:t1"),
                _ => panic!("unexpected pane move"),
            })
        },
        &|method: &String, params: &Json| {
            if method == "pane.focus" {
                return Ok(focused(&focused_param(params)));
            }
            *exports.borrow_mut() += 1;
            let count = *exports.borrow();
            Ok(match count {
                1 => layout(
                    "w1",
                    "w1:t1",
                    "w1:p1",
                    split("right", 0.6, pane("w1:p1"), outgoing()),
                ),
                2 => layout("w2", "w2:t1", "w2:p3", selected()),
                3 => layout(
                    "w1",
                    "w1:t1",
                    "w1:p1",
                    split(
                        "right",
                        0.6,
                        pane("w1:p1"),
                        split("down", 0.4, pane("w1:p8"), pane("w1:p9")),
                    ),
                ),
                4 => layout("w2", "w2:t1", "w2:p8", pane("w2:p8")),
                _ => panic!("unexpected layout export"),
            })
        },
        &ratio_text,
        &ratio_close,
        request("w2:p3", "w2", "w2:t1", true, None),
    )
    .unwrap();

    let commands = commands.into_inner();
    assert_eq!(commands[1][2], "w2:p3");
    assert_eq!(commands[2][2], "w2:p5");
    assert_eq!(commands[2][6], "w1:p8");
}

#[test]
fn rejects_an_unchanged_layout_move() {
    let commands = RefCell::new(Vec::new());
    let exports = RefCell::new(0);
    let result = display_agent_with(
        &|args: &Vec<String>| {
            commands.borrow_mut().push(args.clone());
            Ok(object(vec![(
                "result",
                object(vec![(
                    "move_result",
                    object(vec![("changed", Json::Bool(false)), ("reason", text("not_found"))]),
                )]),
            )]))
        },
        &|method: &String, _: &Json| {
            assert_eq!(method, "layout.export");
            *exports.borrow_mut() += 1;
            let count = *exports.borrow();
            Ok(match count {
                1 => layout(
                    "w1",
                    "w1:t1",
                    "w1:p1",
                    split("right", 0.6, pane("w1:p1"), pane("w1:p2")),
                ),
                2 => layout("w1", "w1:t2", "w1:p3", pane("w1:p3")),
                count => panic!("unexpected layout export {count}"),
            })
        },
        &ratio_text,
        &ratio_close,
        request("w1:p3", "w1", "w1:t2", false, None),
    );

    assert_eq!(result.unwrap_err(), "Herdr did not change the layout: not_found");
    assert_eq!(exports.into_inner(), 2);
    assert_eq!(commands.into_inner().len(), 1);
}

#[test]
fn refuses_cross_workspace_agents_without_the_setting() {
    let result = display_agent_with(
        &|_: &Vec<String>| -> Result<Json, String> { panic!("Herdr must not be called") },
        &|_: &String, _: &Json| -> Result<Json, String> { panic!("Herdr must not be called") },
        &ratio_text,
        &ratio_close,
        DisplayAgentRequest {
            pane_id: "w2:p1".to_owned(),
            workspace_id: "w2".to_owned(),
            tab_id: "w2:t1".to_owned(),
            host_pane_id: "w1:p1".to_owned(),
            host_workspace_id: "w1".to_owned(),
            host_tab_id: "w1:t1".to_owned(),
            allow_cross_workspace: false,
            saved_layout: None,
        },
    );

    assert_eq!(result.unwrap_err(), "Cross-workspace agents are disabled in Settings");
}

#[test]
fn restores_complete_agent_layouts_without_focus() {
    let agent = || split("down", 0.37, pane("w1:p2"), pane("w1:p6"));
    let displayed = || split("right", 0.58, pane("w1:p1"), agent());
    let restore_commands = RefCell::new(Vec::new());
    let exports = RefCell::new(0);
    let restored = restore_agent_layout_with(
        &|args: &Vec<String>| {
            restore_commands.borrow_mut().push(args.clone());
            Ok(moved(&args[2], &args[4]))
        },
        &|method: &String, params: &Json| {
            if method == "pane.focus" {
                return Ok(focused(&focused_param(params)));
            }
            *exports.borrow_mut() += 1;
            let count = *exports.borrow();
            Ok(match count {
                1 => layout("w1", "w1:t1", "w1:p1", pane("w1:p1")),
                2 => layout("w1", "w1:t2", "w1:p2", agent()),
                3 => layout("w1", "w1:t1", "w1:p1", displayed()),
                _ => panic!("unexpected layout export"),
            })
        },
        &ratio_text,
        &ratio_close,
        request("w1:p2", "w1", "w1:t2", false, Some(agent_layout(displayed()))),
    )
    .unwrap();
    assert_eq!(restored.layout, agent_layout(displayed()));
    let restore_commands = restore_commands.into_inner();
    assert_eq!(
        restore_commands
            .iter()
            .map(|args| args.last().map(String::as_str))
            .collect::<Vec<_>>(),
        vec![Some("--no-focus"); 2]
    );
    assert_eq!(restore_commands[0][8], "right");
    assert_eq!(restore_commands[0][10], "0.58");
    assert_eq!(restore_commands[1][8], "down");
    assert_eq!(restore_commands[1][10], "0.37");
}

#[test]
fn a_layout_that_cannot_be_rebuilt_is_scattered_and_restored() {
    let agent = || split("down", 0.37, pane("w1:p2"), pane("w1:p6"));
    let commands = RefCell::new(Vec::new());
    let exports = RefCell::new(0);
    let result = restore_agent_layout_with(
        &|args: &Vec<String>| {
            commands.borrow_mut().push(args.clone());
            if args[3] == "--new-tab" {
                let tab = if args[2] == "w1:p2" { "w1:t9" } else { "w1:t10" };
                Ok(moved(&args[2], tab))
            } else if args[4] == "w1:t1" {
                Err("move refused".to_owned())
            } else {
                Ok(moved(&args[2], &args[4]))
            }
        },
        &|_: &String, _: &Json| {
            *exports.borrow_mut() += 1;
            let count = *exports.borrow();
            Ok(match count {
                1 => layout("w1", "w1:t1", "w1:p1", pane("w1:p1")),
                2 => layout("w1", "w1:t2", "w1:p2", agent()),
                3 => layout("w1", "w1:t9", "w1:p2", agent()),
                4 => layout("w1", "w1:t1", "w1:p1", pane("w1:p1")),
                _ => panic!("unexpected layout export"),
            })
        },
        &ratio_text,
        &ratio_close,
        request("w1:p2", "w1", "w1:t2", false, None),
    );
    assert_eq!(
        result.err().unwrap(),
        "move refused; restored the previous layout"
    );
    let commands = commands.into_inner();
    assert_eq!(commands[1][3], "--new-tab");
    assert_eq!(commands[1][7], "restore-agent-layout");
    assert_eq!(commands[3][4], "w1:t9");
    assert_eq!(exports.into_inner(), 4);
}
