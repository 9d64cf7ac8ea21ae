use hunkle::scheduler::{discord_message, now_ms, ScheduledTaskDestination, ScheduledTaskEdit, DISCORD_MESSAGE_BYTES};
use hunkle::task_file::{
    interval_ms, parse_frequency, parse_frontmatter_path, parse_project_task, parse_task_file,
    parse_task_text, parse_yaml_scalar, validate_task, FREQUENCY_MESSAGE, TASK_KEY_MESSAGE,
};

fn destination(path: &str) -> ScheduledTaskDestination {
    ScheduledTaskDestination {
        path: path.to_owned(),
        repository: "repo".to_owned(),
        branch: "main".to_owned(),
    }
}

fn keep(path: &String) -> Result<String, String> {
    Ok(path.clone())
}

fn render_task_file(task: &ScheduledTaskEdit) -> String {
    let json = |value: &str| serde_json::to_string(value).unwrap();
    format!(
        "---\nstatus: {}\nfrequency: {}m\ntitle: {}\ndescription: {}\nmodel: {}\ndiscord_webhook: {}\ndestination: {}\nrepository: {}\nbranch: {}\n---\n\n{}\n",
        if task.enabled { "enabled" } else { "disabled" },
        task.interval_minutes,
        json(&task.title),
        json(&task.description),
        json(&task.model),
        json(&task.discord_webhook_id),
        json(&task.destination),
        json(&task.repository),
        json(&task.branch),
        task.prompt.trim_end()
    )
}

#[test]
fn markdown_task_frontmatter_round_trips_supported_yaml_scalars() {
    let content = br#"---
status: disabled
frequency: 2h
title: 'Nightly: review'
description: "Review \"open\" changes"
---

Inspect the diff.
Summarize risks.
"#;

    let default = destination("/tmp/checkout");
    let mut task = parse_task_file(content, Some(&default), &keep).unwrap();

    assert_eq!(task.title, "Nightly: review");
    assert_eq!(task.description, "Review \"open\" changes");
    assert_eq!(task.prompt, "Inspect the diff.\nSummarize risks.");
    assert_eq!(task.interval_minutes, 120);
    assert_eq!(task.model, "");
    assert!(!task.enabled);
    task.model = "opencode-go/deepseek-flash-v4".to_owned();
    task.discord_webhook_id = "123456".to_owned();
    let reparsed = parse_task_file(render_task_file(&task).as_bytes(), None, &keep).unwrap();
    assert_eq!(reparsed, task);
}

#[test]
fn discord_message_is_bounded_and_collapses_title_whitespace() {
    let message = discord_message("  Nightly\n review  ", &"é".repeat(2_000));

    assert!(message.starts_with("Hunkle scheduled task: Nightly review\n\n"));
    assert!(message.ends_with("\n\n[Result truncated by Hunkle]"));
    assert!(message.len() as u64 <= DISCORD_MESSAGE_BYTES);
}

#[test]
fn discord_message_keeps_an_output_that_fits() {
    let message = discord_message("Check", "  all good \n");
    assert_eq!(message, "Hunkle scheduled task: Check\n\nall good");
}

#[test]
fn discord_message_cuts_a_long_title_at_a_character_boundary() {
    let message = discord_message(&"ü".repeat(100), "done");
    let expected = format!("Hunkle scheduled task: {}\n\ndone", "ü".repeat(80));
    assert_eq!(message, expected);
}

#[test]
fn frequencies_read_minutes_hours_and_days() {
    assert_eq!(parse_frequency("90"), Ok(90));
    assert_eq!(parse_frequency("2h"), Ok(120));
    assert_eq!(parse_frequency("1d"), Ok(1_440));
    assert_eq!(parse_frequency("15m"), Ok(15));
    assert_eq!(parse_frequency(" 7 m"), Ok(7));
    assert_eq!(parse_frequency("+5"), Ok(5));
    for refused in ["0m", "abc", "", "m", "-3", "18446744073709551615d", "99999999999999999999"] {
        assert_eq!(parse_frequency(refused), Err(FREQUENCY_MESSAGE.to_owned()), "{refused}");
    }
}

#[test]
fn intervals_are_positive_milliseconds_within_i64() {
    assert_eq!(interval_ms(1), Ok(60_000));
    assert_eq!(interval_ms(120), Ok(7_200_000));
    assert_eq!(interval_ms(0), Err("schedule interval must be positive".to_owned()));
    assert_eq!(interval_ms(u64::MAX), Err("schedule interval must be positive".to_owned()));
    assert_eq!(interval_ms(153_722_867_280_913), Err("schedule interval is too large".to_owned()));
    assert_eq!(interval_ms(153_722_867_280_912), Ok(9_223_372_036_854_720_000));
}

fn edit(title: &str, prompt: &str, minutes: u64) -> ScheduledTaskEdit {
    ScheduledTaskEdit {
        title: title.to_owned(),
        description: String::new(),
        prompt: prompt.to_owned(),
        model: String::new(),
        discord_webhook_id: String::new(),
        destination: "/tmp".to_owned(),
        repository: "repo".to_owned(),
        branch: "main".to_owned(),
        enabled: true,
        interval_minutes: minutes,
    }
}

#[test]
fn validation_requires_a_title_a_prompt_and_an_interval() {
    assert_eq!(validate_task(&edit("Title", "Prompt", 5)), Ok(()));
    assert_eq!(
        validate_task(&edit("  ", "Prompt", 5)),
        Err("scheduled task title is required".to_owned())
    );
    assert_eq!(
        validate_task(&edit("Title", "\n", 5)),
        Err("scheduled task prompt is required".to_owned())
    );
    assert_eq!(
        validate_task(&edit("Title", "Prompt", 0)),
        Err("schedule interval must be positive".to_owned())
    );
}

#[test]
fn scalars_read_json_single_quoted_and_plain_values() {
    assert_eq!(parse_yaml_scalar("'it''s'"), Ok("it's".to_owned()));
    assert_eq!(parse_yaml_scalar("\"a\\nb\""), Ok("a\nb".to_owned()));
    assert_eq!(parse_yaml_scalar("plain"), Ok("plain".to_owned()));
    assert_eq!(parse_yaml_scalar("'open"), Err("unterminated quoted value".to_owned()));
    assert_eq!(parse_yaml_scalar("'"), Err("unterminated quoted value".to_owned()));
    assert!(parse_yaml_scalar("\"open").unwrap_err().starts_with("invalid quoted value: "));
}

#[test]
fn destinations_may_be_written_in_base64() {
    assert_eq!(parse_frontmatter_path("/srv/code"), Ok("/srv/code".to_owned()));
    assert_eq!(parse_frontmatter_path("base64:L3RtcC94"), Ok("/tmp/x".to_owned()));
    assert!(parse_frontmatter_path("base64:***")
        .unwrap_err()
        .starts_with("invalid encoded destination: "));
    assert_eq!(
        parse_frontmatter_path("base64:/w=="),
        Err("invalid encoded destination: the path is not UTF-8".to_owned())
    );
}

fn text_error(content: &str) -> String {
    parse_task_text(content.as_bytes(), None).unwrap_err()
}

#[test]
fn malformed_task_files_are_refused_with_their_reason() {
    assert_eq!(text_error(""), "missing YAML frontmatter");
    assert_eq!(text_error("status: enabled\n"), "task file must start with YAML frontmatter");
    assert_eq!(text_error("---\nstatus: enabled\n"), "YAML frontmatter is not closed with `---`");
    assert_eq!(text_error("---\nstatus enabled\n---\n"), "invalid frontmatter line `status enabled`");
    assert_eq!(text_error("---\nowner: me\n---\n"), "unknown frontmatter field `owner`");
    assert_eq!(
        text_error("---\ntitle: a\ntitle: b\n---\n"),
        "duplicate frontmatter field `title`"
    );
    assert_eq!(text_error("---\ntitle: a\n---\n"), "missing frontmatter field `destination`");
    assert_eq!(
        text_error("---\ndestination: /tmp\n---\n"),
        "missing frontmatter field `repository`"
    );
    assert_eq!(
        text_error("---\ndestination: /tmp\nrepository: r\nbranch: b\nstatus: paused\n---\n"),
        "status must be `enabled` or `disabled`"
    );
    assert_eq!(
        parse_task_text(&[0xff, 0xfe], None).unwrap_err(),
        "task file must be UTF-8"
    );
}

#[test]
fn a_complete_task_file_uses_its_own_destination() {
    let content = "---\r\n# comment\r\nstatus: enabled\r\nfrequency: 1d\r\ntitle: Build\r\ndescription: ''\r\ndestination: /srv/app\r\nrepository: app\r\nbranch: dev\r\nmodel: m1\r\n---\r\n\r\nRun it.\r\n\r\n";
    let task = parse_task_text(content.as_bytes(), None).unwrap();
    assert_eq!(task.destination, "/srv/app");
    assert_eq!(task.repository, "app");
    assert_eq!(task.branch, "dev");
    assert_eq!(task.description, "");
    assert_eq!(task.model, "m1");
    assert_eq!(task.prompt, "Run it.");
    assert_eq!(task.interval_minutes, 1_440);
    assert!(task.enabled);
}

#[test]
fn resolving_the_destination_can_refuse_the_task() {
    let content = "---\nstatus: enabled\nfrequency: 5\ntitle: T\ndescription: D\ndestination: relative\nrepository: r\nbranch: b\n---\nGo\n";
    let refuse = |_: &String| -> Result<String, String> {
        Err("scheduler destination must be an existing absolute directory".to_owned())
    };
    assert_eq!(
        parse_task_file(content.as_bytes(), None, &refuse),
        Err("scheduler destination must be an existing absolute directory".to_owned())
    );
    let canonical = |_: &String| -> Result<String, String> { Ok("/abs/relative".to_owned()) };
    assert_eq!(
        parse_task_file(content.as_bytes(), None, &canonical).unwrap().destination,
        "/abs/relative"
    );
    let blank = "---\nstatus: enabled\nfrequency: 5\ntitle: T\ndescription: D\ndestination: /x\nrepository: r\nbranch: b\n---\n\n";
    assert_eq!(
        parse_task_file(blank.as_bytes(), None, &keep),
        Err("scheduled task prompt is required".to_owned())
    );
}

#[test]
fn project_tasks_take_their_key_from_the_id_or_the_file_name() {
    let content = b"---\ntitle: Review\nfrequency: 1h\n---\nReview the code.\n";
    let task = parse_project_task(content, ".hunkle/tasks/nightly-review.md", &destination("/repo")).unwrap();
    assert_eq!(task.key, "nightly-review");
    assert_eq!(task.source, ".hunkle/tasks/nightly-review.md");
    assert_eq!(task.content, content.to_vec());
    assert_eq!(task.edit.interval_minutes, 60);
    assert_eq!(task.edit.destination, "/repo");
    assert_eq!(task.edit.description, "");
    assert!(!task.edit.enabled);

    let with_id = b"---\nid: custom.key_1\ntitle: Review\nfrequency: 1h\n---\nReview.\n";
    let task = parse_project_task(with_id, "tasks/a.md", &destination("/repo")).unwrap();
    assert_eq!(task.key, "custom.key_1");

    let bad_id = b"---\nid: bad key\ntitle: Review\nfrequency: 1h\n---\nReview.\n";
    assert_eq!(
        parse_project_task(bad_id, "tasks/a.md", &destination("/repo")).unwrap_err(),
        TASK_KEY_MESSAGE
    );
    let status = b"---\nstatus: enabled\n---\n";
    assert_eq!(
        parse_project_task(status, "tasks/a.md", &destination("/repo")).unwrap_err(),
        "unknown project task field `status`"
    );
    let no_title = b"---\nfrequency: 1h\n---\nx\n";
    assert_eq!(
        parse_project_task(no_title, "tasks/a.md", &destination("/repo")).unwrap_err(),
        "missing frontmatter field `title`"
    );
}

#[test]
fn the_clock_reads_a_time_after_the_epoch() {
    assert!(now_ms() > 1_600_000_000_000);
}
