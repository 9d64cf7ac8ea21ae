use hunkle::picker::{
    AgentDestinationKind, HeaderPicker, HeaderPickerItem, HeaderPickerKind, RepositoryPickerItem,
};

#[test]
fn scrolling_moves_the_viewport_without_moving_selection() {
    let items = (0..12)
        .map(|index| HeaderPickerItem::AgentDestination {
            path: format!("/tmp/repository-{index}"),
            repository: format!("repository-{index}"),
            branch: "main".to_owned(),
            kind: AgentDestinationKind::Repository,
        })
        .collect();
    let mut picker = HeaderPicker::new();
    picker.open(HeaderPickerKind::AgentDestinations, items, 0);
    picker.set_viewport_rows(3);

    picker.scroll_by(2);
    assert_eq!(picker.selected, 0);
    assert_eq!(picker.visible_start(), 2);

    picker.move_selection(1);
    assert_eq!(picker.selected, 1);
    assert_eq!(picker.visible_start(), 1);
}

#[test]
fn filters_agent_destinations_by_branch() {
    let mut picker = HeaderPicker::new();
    picker.open(
        HeaderPickerKind::AgentDestinations,
        vec![HeaderPickerItem::AgentDestination {
            path: "/tmp/checkout".to_owned(),
            repository: "repository".to_owned(),
            branch: "topic-branch".to_owned(),
            kind: AgentDestinationKind::Worktree,
        }],
        0,
    );
    picker.query.insert("topic");
    picker.apply_filter();

    assert_eq!(picker.items.len(), 1);
}

#[test]
fn filters_repositories_by_precomputed_label() {
    let mut picker = HeaderPicker::new();
    picker.open(
        HeaderPickerKind::Repositories,
        vec![HeaderPickerItem::Repository {
            common_dir: "/tmp/catalog/.git".to_owned(),
            path: "/tmp/catalog".to_owned(),
            label: "project-catalog".to_owned(),
            stats: None,
            branch: Some("main".to_owned()),
        }],
        0,
    );
    picker.query.insert("project-catalog");
    picker.apply_filter();

    assert_eq!(picker.items.len(), 1);
}

#[test]
fn synchronizes_cached_repository_details_as_one_batch() {
    let mut picker = HeaderPicker::new();
    picker.open(
        HeaderPickerKind::Repositories,
        vec![
            HeaderPickerItem::Repository {
                common_dir: "/tmp/alpha/.git".to_owned(),
                path: "/tmp/alpha".to_owned(),
                label: "alpha".to_owned(),
                stats: None,
                branch: None,
            },
            HeaderPickerItem::Repository {
                common_dir: "/tmp/bravo/.git".to_owned(),
                path: "/tmp/bravo".to_owned(),
                label: "bravo".to_owned(),
                stats: None,
                branch: None,
            },
        ],
        0,
    );

    assert!(picker.sync_repository_details(&vec![
        RepositoryPickerItem {
            common_dir: "/tmp/alpha/.git".to_owned(),
            root: "/tmp/alpha".to_owned(),
            label: "alpha".to_owned(),
            stats: Some((12, 3)),
            branch: Some("main".to_owned()),
        },
        RepositoryPickerItem {
            common_dir: "/tmp/bravo/.git".to_owned(),
            root: "/tmp/bravo".to_owned(),
            label: "bravo".to_owned(),
            stats: Some((7, 2)),
            branch: Some("topic".to_owned()),
        },
    ]));
    assert!(matches!(
        &picker.items[0],
        HeaderPickerItem::Repository {
            stats: Some((12, 3)),
            branch: Some(branch),
            ..
        } if branch == "main"
    ));
    assert!(matches!(
        &picker.items[1],
        HeaderPickerItem::Repository {
            stats: Some((7, 2)),
            branch: Some(branch),
            ..
        } if branch == "topic"
    ));
}
