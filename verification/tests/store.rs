use hunkle::scheduler::ProjectTaskStatus;
use hunkle::store::{discord_test_notice, project_status, schema_steps, stale_launch_cutoff, SchemaStep};

#[test]
fn a_new_store_is_created_and_stamped() {
    assert_eq!(
        schema_steps(0).unwrap(),
        vec![SchemaStep::CreateAll, SchemaStep::CreateMetadataIfMissing, SchemaStep::SetVersion]
    );
}

#[test]
fn migrates_v5_tasks_with_an_empty_model_steps() {
    assert_eq!(
        schema_steps(5).unwrap(),
        vec![
            SchemaStep::AddTaskModel,
            SchemaStep::AddDiscordWebhookIfTables,
            SchemaStep::AddProjectColumnsIfTasks,
            SchemaStep::AddProjectRepositoryIfTasks,
            SchemaStep::CreateMetadataIfMissing,
            SchemaStep::SetVersion,
        ]
    );
    assert_eq!(
        schema_steps(2).unwrap(),
        vec![
            SchemaStep::AddRunTerminalAndSession,
            SchemaStep::AddTaskSourcePathIfTasks,
            SchemaStep::AddTaskModelIfTasks,
            SchemaStep::AddDiscordWebhookIfTables,
            SchemaStep::AddProjectColumnsIfTasks,
            SchemaStep::AddProjectRepositoryIfTasks,
            SchemaStep::CreateMetadataIfMissing,
            SchemaStep::SetVersion,
        ]
    );
    assert_eq!(schema_steps(9).unwrap(), vec![SchemaStep::CreateMetadataIfMissing]);
    assert_eq!(
        schema_steps(10).unwrap_err(),
        "scheduler database version 10 is newer than supported"
    );
    assert_eq!(
        schema_steps(-1).unwrap_err(),
        "scheduler database version -1 is newer than supported"
    );
}

#[test]
fn project_status_follows_approval() {
    assert_eq!(project_status(false, true, None, None), None);
    assert_eq!(project_status(true, true, Some(b"a"), Some(b"a")), Some(ProjectTaskStatus::Missing));
    assert_eq!(project_status(true, false, Some(b"a"), None), Some(ProjectTaskStatus::Pending));
    assert_eq!(project_status(true, false, Some(b"a"), Some(b"a")), Some(ProjectTaskStatus::Current));
    assert_eq!(project_status(true, false, Some(b"b"), Some(b"a")), Some(ProjectTaskStatus::Changed));
}

#[test]
fn discord_test_reports_missing_configuration_notice() {
    assert_eq!(discord_test_notice(None), "Discord webhook is not configured");
    assert_eq!(discord_test_notice(Some(Ok(()))), "Discord test message sent");
    assert_eq!(discord_test_notice(Some(Err("404".to_owned()))), "Discord test failed: 404");
    assert_eq!(stale_launch_cutoff(1_000_000), 700_000);
    assert_eq!(stale_launch_cutoff(i64::MIN), i64::MIN);
}
