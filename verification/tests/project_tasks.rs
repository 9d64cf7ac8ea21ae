use hunkle::project_tasks::{
    enable_project_task, gather_project_tasks, is_task_file, legacy_repository_marker, missing_project_tasks,
    next_run_after, problems_summary, project_task_write, EnableRefusal, ProjectTaskWrite, StoredProjectTask,
};
use hunkle::scheduler::ScheduledTaskDestination;

const REVIEW: &str =
    "---\nid: review\nfrequency: 1d\ntitle: Review\ndescription: Check changes\n---\n\nReview the repository.\n";

fn destination(path: &str) -> ScheduledTaskDestination {
    ScheduledTaskDestination {
        path: path.to_owned(),
        repository: "repo".to_owned(),
        branch: "main".to_owned(),
    }
}

#[test]
fn only_markdown_files_are_task_files() {
    assert!(is_task_file(false, ".agents/scheduled/review.md"));
    assert!(!is_task_file(true, ".agents/scheduled/review.md"));
    assert!(!is_task_file(false, ".agents/scheduled/review.txt"));
    assert!(!is_task_file(false, ".agents/scheduled/.md"));
    assert!(!is_task_file(false, ".agents/scheduled/README"));
    assert!(is_task_file(false, "a.b.md"));
    assert!(!is_task_file(false, "a.mdx"));
}

#[test]
fn gathering_keeps_each_key_once_and_reports_problems() {
    let files = vec![
        (".agents/scheduled/review.md".to_owned(), Ok(REVIEW.as_bytes().to_vec())),
        (".agents/scheduled/copy.md".to_owned(), Ok(REVIEW.as_bytes().to_vec())),
        (".agents/scheduled/gone.md".to_owned(), Err("permission denied".to_owned())),
        (".agents/scheduled/bad.md".to_owned(), Ok(b"no frontmatter".to_vec())),
    ];
    let (definitions, problems) = gather_project_tasks(&files, &destination("/repo"));
    assert_eq!(definitions.len(), 1);
    assert_eq!(definitions[0].key, "review");
    assert_eq!(definitions[0].source, ".agents/scheduled/review.md");
    assert_eq!(definitions[0].edit.interval_minutes, 24 * 60);
    assert!(!definitions[0].edit.enabled);
    assert_eq!(problems.len(), 3);
    assert_eq!(problems[0], ".agents/scheduled/copy.md: duplicate project task id `review`");
    assert_eq!(problems[1], ".agents/scheduled/gone.md: permission denied");
    assert!(problems[2].starts_with(".agents/scheduled/bad.md: "));
    assert_eq!(
        problems_summary("Could not load project tasks: ", &problems[..2].to_vec()).unwrap_err(),
        "Could not load project tasks: .agents/scheduled/copy.md: duplicate project task id `review`; .agents/scheduled/gone.md: permission denied"
    );
    assert!(problems_summary("Could not load project tasks: ", &Vec::new()).is_ok());
}

#[test]
fn stored_tasks_keep_their_schedule_and_approval_only_when_unchanged() {
    let (definitions, _) = gather_project_tasks(
        &vec![(".agents/scheduled/review.md".to_owned(), Ok(REVIEW.as_bytes().to_vec()))],
        &destination("/repo"),
    );
    let definition = &definitions[0];
    let day = 24 * 60 * 60_000;
    assert_eq!(
        project_task_write(&None, definition, b"/repo", 1_000),
        ProjectTaskWrite::Insert { next_run_ms: 1_000 + day }
    );
    let stored = StoredProjectTask {
        id: 4,
        interval_minutes: 24 * 60,
        next_run_ms: 5_000,
        approved_content: Some(REVIEW.as_bytes().to_vec()),
        destination: b"/repo".to_vec(),
    };
    assert_eq!(
        project_task_write(&Some(stored), definition, b"/repo", 1_000),
        ProjectTaskWrite::Update { id: 4, keep_enabled: true, next_run_ms: 5_000 }
    );
    let changed = StoredProjectTask {
        id: 4,
        interval_minutes: 60,
        next_run_ms: 5_000,
        approved_content: Some(b"older".to_vec()),
        destination: b"/repo".to_vec(),
    };
    assert_eq!(
        project_task_write(&Some(changed), definition, b"/repo", 1_000),
        ProjectTaskWrite::Update { id: 4, keep_enabled: false, next_run_ms: 1_000 + day }
    );
    let elsewhere = StoredProjectTask {
        id: 4,
        interval_minutes: 24 * 60,
        next_run_ms: 5_000,
        approved_content: None,
        destination: b"/other".to_vec(),
    };
    assert_eq!(project_task_write(&Some(elsewhere), definition, b"/repo", 1_000), ProjectTaskWrite::Skip);
    assert_eq!(next_run_after(None, 1, i64::MAX - 10), i64::MAX);
    assert_eq!(next_run_after(Some((5, 77)), 5, 0), 77);
}

#[test]
fn tasks_without_a_file_are_missing() {
    let (definitions, _) = gather_project_tasks(
        &vec![(".agents/scheduled/review.md".to_owned(), Ok(REVIEW.as_bytes().to_vec()))],
        &destination("/repo"),
    );
    let known = vec![(1, "review".to_owned()), (2, "old".to_owned()), (3, "older".to_owned())];
    assert_eq!(missing_project_tasks(&known, &definitions), vec![2, 3]);
    assert_eq!(missing_project_tasks(&known, &Vec::new()), vec![1, 2, 3]);
}

#[test]
fn enabling_a_project_task_rereads_its_file() {
    let day = 24 * 60 * 60_000;
    let (definition, next) =
        enable_project_task(&Ok(REVIEW.as_bytes().to_vec()), ".agents/scheduled/review.md", &destination("/repo"), "review", 10)
            .unwrap();
    assert_eq!(definition.key, "review");
    assert_eq!(next, 10 + day);
    match enable_project_task(&Ok(REVIEW.as_bytes().to_vec()), "x.md", &destination("/repo"), "other", 10) {
        Err(EnableRefusal::Refused(message)) => {
            assert_eq!(message, "project task id changed; refresh project tasks first")
        }
        other => panic!("unexpected {other:?}"),
    }
    match enable_project_task(&Err("No such file".to_owned()), "x.md", &destination("/repo"), "review", 10) {
        Err(EnableRefusal::Unreadable(message)) => assert_eq!(message, "Could not read x.md: No such file"),
        other => panic!("unexpected {other:?}"),
    }
    match enable_project_task(&Ok(REVIEW.as_bytes().to_vec()), "x.md", &destination("/repo"), "review", i64::MAX) {
        Err(EnableRefusal::Refused(message)) => assert_eq!(message, "schedule is too large"),
        other => panic!("unexpected {other:?}"),
    }
}

#[test]
fn repository_markers_name_the_identity_in_hex() {
    assert_eq!(
        legacy_repository_marker(&[0x2f, 0x0a, 0xff]),
        "legacy_repository_task_files_imported:2f0aff"
    );
    assert_eq!(legacy_repository_marker(&[]), "legacy_repository_task_files_imported:");
}
