//! The scheduler's store: the steps that bring its schema from any earlier
//! version to the current one, how a project task's approval is read back,
//! and when an unfinished launch counts as abandoned.
use vstd::prelude::*;
use crate::client::{i64_decimal, signed_decimal};
use crate::runs::{same_bytes, saturate, saturating_difference};
use crate::scheduler::ProjectTaskStatus;
use crate::text::append_str;

verus! {

/// The version of the store's schema that this library writes.
pub const SCHEMA_VERSION: i64 = 9;

/// A step of bringing the store's schema up to date.
#[derive(Debug, Clone, Copy, PartialEq, Eq, Structural)]
pub enum SchemaStep {
    /// Creates every table and index of the current schema.
    CreateAll,
    /// Rebuilds the runs table of the first schema, dropping runs without a task.
    RebuildRuns,
    /// Adds the terminal and session of each run.
    AddRunTerminalAndSession,
    /// Adds the session of each run.
    AddRunSession,
    /// Adds the source file of each task.
    AddTaskSourcePath,
    /// Adds the model of each task.
    AddTaskModel,
    /// Adds the source file of each task, when the tasks table exists.
    AddTaskSourcePathIfTasks,
    /// Adds the model of each task, when the tasks table exists.
    AddTaskModelIfTasks,
    /// Adds the Discord webhook of tasks and runs, to each table that exists.
    AddDiscordWebhookIfTables,
    /// Adds what project tasks need, when the tasks table exists.
    AddProjectColumnsIfTasks,
    /// Keys project tasks by repository, when the tasks table exists.
    AddProjectRepositoryIfTasks,
    /// Creates the metadata table when it is missing.
    CreateMetadataIfMissing,
    /// Records the current schema version.
    SetVersion,
}

/// The step that the schema of `version` starts with.
pub open spec fn base_steps(version: int) -> Seq<SchemaStep> {
    if version == 0 {
        seq![SchemaStep::CreateAll]
    } else if version == 1 {
        seq![SchemaStep::RebuildRuns]
    } else if version == 2 {
        seq![SchemaStep::AddRunTerminalAndSession]
    } else if version == 3 {
        seq![SchemaStep::AddRunSession]
    } else if version == 4 {
        seq![SchemaStep::AddTaskSourcePath]
    } else if version == 5 {
        seq![SchemaStep::AddTaskModel]
    } else {
        seq![]
    }
}

/// `step` when `condition` holds, else nothing.
pub open spec fn step_if(condition: bool, step: SchemaStep) -> Seq<SchemaStep> {
    if condition {
        seq![step]
    } else {
        seq![]
    }
}

/// The steps that bring a schema of `version` up to date, in order; a
/// version outside `0..=9` cannot be brought up to date.
pub open spec fn spec_schema_steps(version: int) -> Option<Seq<SchemaStep>> {
    if version < 0 || version > SCHEMA_VERSION {
        None
    } else {
        Some(
            base_steps(version) + step_if(0 < version < 4, SchemaStep::AddTaskSourcePathIfTasks) + step_if(
                0 < version < 5,
                SchemaStep::AddTaskModelIfTasks,
            ) + step_if(0 < version < 7, SchemaStep::AddDiscordWebhookIfTables) + step_if(
                0 < version < 8,
                SchemaStep::AddProjectColumnsIfTasks,
            ) + step_if(0 < version < 9, SchemaStep::AddProjectRepositoryIfTasks) + seq![
                SchemaStep::CreateMetadataIfMissing,
            ] + step_if(version < SCHEMA_VERSION, SchemaStep::SetVersion),
        )
    }
}

fn push_if(steps: &mut Vec<SchemaStep>, condition: bool, step: SchemaStep)
    ensures
        final(steps)@ == old(steps)@ + step_if(condition, step),
{
    if condition {
        steps.push(step);
    }
    assert(final(steps)@ =~= old(steps)@ + step_if(condition, step));
}

/// The steps that bring a schema of `version` up to date, or why a newer
/// schema cannot be used.
pub fn schema_steps(version: i64) -> (r: Result<Vec<SchemaStep>, String>)
    ensures
        match spec_schema_steps(version as int) {
            Some(steps) => r matches Ok(v) && v@ == steps,
            None => r matches Err(m) && m@ == "scheduler database version "@ + signed_decimal(version as int)
                + " is newer than supported"@,
        },
{
    if version < 0 || version > SCHEMA_VERSION {
        let mut m = String::from_str("scheduler database version ");
        append_str(&mut m, i64_decimal(version).as_str());
        append_str(&mut m, " is newer than supported");
        return Err(m);
    }
    let mut steps: Vec<SchemaStep> = Vec::new();
    if version == 0 {
        steps.push(SchemaStep::CreateAll);
    } else if version == 1 {
        steps.push(SchemaStep::RebuildRuns);
    } else if version == 2 {
        steps.push(SchemaStep::AddRunTerminalAndSession);
    } else if version == 3 {
        steps.push(SchemaStep::AddRunSession);
    } else if version == 4 {
        steps.push(SchemaStep::AddTaskSourcePath);
    } else if version == 5 {
        steps.push(SchemaStep::AddTaskModel);
    }
    assert(steps@ =~= base_steps(version as int));
    push_if(&mut steps, 0 < version && version < 4, SchemaStep::AddTaskSourcePathIfTasks);
    push_if(&mut steps, 0 < version && version < 5, SchemaStep::AddTaskModelIfTasks);
    push_if(&mut steps, 0 < version && version < 7, SchemaStep::AddDiscordWebhookIfTables);
    push_if(&mut steps, 0 < version && version < 8, SchemaStep::AddProjectColumnsIfTasks);
    push_if(&mut steps, 0 < version && version < 9, SchemaStep::AddProjectRepositoryIfTasks);
    push_if(&mut steps, true, SchemaStep::CreateMetadataIfMissing);
    push_if(&mut steps, version < SCHEMA_VERSION, SchemaStep::SetVersion);
    Ok(steps)
}

/// Every schema of a supported version ends up creating the metadata table,
/// and an older one records the current version last.
pub proof fn lemma_schema_steps_finish(version: int)
    requires
        0 <= version <= SCHEMA_VERSION,
    ensures
        spec_schema_steps(version) matches Some(steps) && steps.contains(SchemaStep::CreateMetadataIfMissing)
            && (version < SCHEMA_VERSION ==> steps.last() == SchemaStep::SetVersion)
            && (version == 0 ==> steps == seq![SchemaStep::CreateAll, SchemaStep::CreateMetadataIfMissing, SchemaStep::SetVersion]),
{
    let steps = spec_schema_steps(version)->0;
    let before = base_steps(version) + step_if(0 < version < 4, SchemaStep::AddTaskSourcePathIfTasks) + step_if(
        0 < version < 5,
        SchemaStep::AddTaskModelIfTasks,
    ) + step_if(0 < version < 7, SchemaStep::AddDiscordWebhookIfTables) + step_if(
        0 < version < 8,
        SchemaStep::AddProjectColumnsIfTasks,
    ) + step_if(0 < version < 9, SchemaStep::AddProjectRepositoryIfTasks);
    let with_metadata = before + seq![SchemaStep::CreateMetadataIfMissing];
    assert(with_metadata[before.len() as int] == SchemaStep::CreateMetadataIfMissing);
    assert(steps == with_metadata + step_if(version < SCHEMA_VERSION, SchemaStep::SetVersion));
    assert(steps[before.len() as int] == SchemaStep::CreateMetadataIfMissing);
    if version == 0 {
        assert(steps =~= seq![SchemaStep::CreateAll, SchemaStep::CreateMetadataIfMissing, SchemaStep::SetVersion]);
    }
}

/// How a project task's approval reads: a task whose file is gone is
/// missing; one never approved is pending; one whose file holds the
/// approved content is current; otherwise it changed. Other tasks have no
/// such status.
pub open spec fn spec_project_status(
    is_project: bool,
    source_missing: bool,
    source_content: Option<Seq<u8>>,
    approved_content: Option<Seq<u8>>,
) -> Option<ProjectTaskStatus> {
    if !is_project {
        None
    } else if source_missing {
        Some(ProjectTaskStatus::Missing)
    } else if approved_content is None {
        Some(ProjectTaskStatus::Pending)
    } else if approved_content == source_content {
        Some(ProjectTaskStatus::Current)
    } else {
        Some(ProjectTaskStatus::Changed)
    }
}

pub open spec fn bytes_view(b: Option<&[u8]>) -> Option<Seq<u8>> {
    match b {
        Some(x) => Some(x@),
        None => None,
    }
}

pub fn project_status(
    is_project: bool,
    source_missing: bool,
    source_content: Option<&[u8]>,
    approved_content: Option<&[u8]>,
) -> (r: Option<ProjectTaskStatus>)
    ensures
        r == spec_project_status(is_project, source_missing, bytes_view(source_content), bytes_view(approved_content)),
{
    if !is_project {
        return None;
    }
    if source_missing {
        return Some(ProjectTaskStatus::Missing);
    }
    let approved = match approved_content {
        None => return Some(ProjectTaskStatus::Pending),
        Some(a) => a,
    };
    let same = match source_content {
        Some(s) => same_bytes(approved, s),
        None => false,
    };
    if same {
        Some(ProjectTaskStatus::Current)
    } else {
        Some(ProjectTaskStatus::Changed)
    }
}

/// How long a launch may stay unfinished before it counts as abandoned.
pub const STALE_LAUNCH_MS: i64 = 300000;

/// Launches created at or before this time, seen at `now`, were abandoned.
pub fn stale_launch_cutoff(now: i64) -> (r: i64)
    ensures
        r == saturate(now - STALE_LAUNCH_MS),
{
    saturating_difference(now, STALE_LAUNCH_MS)
}

/// What a test of a Discord webhook reports: a webhook that is not
/// configured, a message that went through, or why it did not.
pub fn discord_test_notice(outcome: Option<Result<(), String>>) -> (r: String)
    ensures
        match outcome {
            None => r@ == "Discord webhook is not configured"@,
            Some(Ok(())) => r@ == "Discord test message sent"@,
            Some(Err(e)) => r@ == "Discord test failed: "@ + e@,
        },
{
    match outcome {
        None => String::from_str("Discord webhook is not configured"),
        Some(Ok(())) => String::from_str("Discord test message sent"),
        Some(Err(e)) => {
            let mut m = String::from_str("Discord test failed: ");
            append_str(&mut m, e.as_str());
            m
        },
    }
}

} // verus!
