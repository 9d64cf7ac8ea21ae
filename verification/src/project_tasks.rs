//! How task files are taken into the scheduler's store: which directory
//! entries are task files, what the project task files of a repository
//! give, how a stored project task is brought up to date, which stored
//! tasks lost their file, when a task's next run falls, and how the
//! problems found are reported.
use vstd::prelude::*;
use crate::runs::{same_bytes, saturate};
use crate::scheduler::{ScheduledTaskDestination, TaskEditView};
use crate::session::{file_name_of, path_file_name};
use crate::task_file::{
    interval_ms, parse_project_task, path_file_stem, reports_text, spec_interval_ms, spec_project_task,
    ProjectTaskDefinition, TaskError,
};
use crate::text::{append_str, chars_of, join, join_chars, push_char};

verus! {

/// The index of the last `.` of a name, or -1.
pub open spec fn last_dot(s: Seq<char>) -> int
    decreases s.len(),
{
    if s.len() == 0 {
        -1
    } else if s.last() == '.' {
        s.len() - 1
    } else {
        last_dot(s.drop_last())
    }
}

/// The extension of a file name: what follows its last `.`, unless it has
/// none, the name starts with its only dot, or the name is `..`
/// (`Path::extension`).
pub open spec fn name_extension(name: Seq<char>) -> Option<Seq<char>> {
    if name == ".."@ || last_dot(name) <= 0 {
        None
    } else {
        Some(name.skip(last_dot(name) + 1))
    }
}

/// A directory entry is a task file: a file whose name ends in `.md`.
pub open spec fn spec_is_task_file(is_directory: bool, path: Seq<char>) -> bool {
    !is_directory && match path_file_name(path) {
        Some(name) => name_extension(name) == Some("md"@),
        None => false,
    }
}

/// Whether a directory entry is a task file.
pub fn is_task_file(is_directory: bool, path: &str) -> (r: bool)
    ensures
        r == spec_is_task_file(is_directory, path@),
{
    if is_directory {
        return false;
    }
    let name = match file_name_of(path) {
        Some(n) => n,
        None => return false,
    };
    let s = chars_of(name.as_str());
    assert(s@.take(s@.len() as int) =~= s@);
    let mut i: usize = s.len();
    while i > 0 && s[i - 1] != '.'
        invariant
            i <= s.len(),
            s@ == name@,
            last_dot(s@) == last_dot(s@.take(i as int)),
        decreases i,
    {
        assert(s@.take(i as int).drop_last() =~= s@.take(i - 1));
        i = i - 1;
    }
    proof {
        assert(s@.take(s@.len() as int) =~= s@);
        if i > 0 {
            assert(s@.take(i as int).last() == '.');
        } else {
            assert(s@.take(0) =~= Seq::<char>::empty());
        }
        reveal_strlit("..");
        reveal_strlit("md");
    }
    if i <= 1 {
        return false;
    }
    if s.len() == 2 && s[0] == '.' && s[1] == '.' {
        assert(s@ =~= ".."@);
        return false;
    }
    assert(s@ != ".."@);
    let is_md = s.len() - i == 2 && s[i] == 'm' && s[i + 1] == 'd';
    assert(is_md ==> s@.skip(i as int) =~= "md"@);
    assert(s@.skip(i as int) =~= "md"@ ==> is_md) by {
        if s@.skip(i as int) =~= "md"@ {
            assert(s@.skip(i as int)[0] == s@[i as int]);
            assert(s@.skip(i as int)[1] == s@[i + 1]);
        }
    }
    is_md
}

/// A task file as read: its path in the repository, and its content or why
/// it could not be read.
pub open spec fn read_view(f: (String, Result<Vec<u8>, String>)) -> (Seq<char>, Result<Seq<u8>, Seq<char>>) {
    (
        f.0@,
        match f.1 {
            Ok(b) => Ok(b@),
            Err(e) => Err(e@),
        },
    )
}

pub open spec fn read_views(files: Seq<(String, Result<Vec<u8>, String>)>) -> Seq<
    (Seq<char>, Result<Seq<u8>, Seq<char>>),
> {
    Seq::new(files.len(), |i: int| read_view(files[i]))
}

/// A project task, by value: its key, file, content and fields.
pub struct DefinitionView {
    pub key: Seq<char>,
    pub source: Seq<char>,
    pub content: Seq<u8>,
    pub edit: TaskEditView,
}

pub open spec fn definition_view(d: ProjectTaskDefinition) -> DefinitionView {
    DefinitionView { key: d.key@, source: d.source@, content: d.content@, edit: d.edit@ }
}

/// A problem with a task file: a message, or a refusal of the file's text.
pub enum Problem {
    Stated(Seq<char>),
    Refused(Seq<char>, TaskError),
}

/// The message `m` reports the problem `p`.
pub open spec fn problem_reported(m: Seq<char>, p: Problem) -> bool {
    match p {
        Problem::Stated(t) => m == t,
        Problem::Refused(path, err) => exists|tail: Seq<char>|
            #[trigger] reports_text(tail, err) && m == path + ": "@ + tail,
    }
}

/// Some gathered task has the key.
pub open spec fn has_key(defs: Seq<DefinitionView>, key: Seq<char>) -> bool {
    exists|i: int| 0 <= i < defs.len() && #[trigger] defs[i].key == key
}

/// The project tasks that the files give, in file order, and the problems
/// found: a file that could not be read, a file whose text is refused, and
/// a file whose key an earlier file already has.
pub open spec fn gathered(
    files: Seq<(Seq<char>, Result<Seq<u8>, Seq<char>>)>,
    destination: (Seq<char>, Seq<char>, Seq<char>),
) -> (Seq<DefinitionView>, Seq<Problem>)
    decreases files.len(),
{
    if files.len() == 0 {
        (Seq::empty(), Seq::empty())
    } else {
        let before = gathered(files.drop_last(), destination);
        let path = files.last().0;
        match files.last().1 {
            Err(e) => (before.0, before.1.push(Problem::Stated(path + ": "@ + e))),
            Ok(content) => match spec_project_task(content, path_file_stem(path), destination) {
                Err(err) => (before.0, before.1.push(Problem::Refused(path, err))),
                Ok((key, edit)) => if has_key(before.0, key) {
                    (
                        before.0,
                        before.1.push(
                            Problem::Stated(path + ": duplicate project task id `"@ + key + "`"@),
                        ),
                    )
                } else {
                    (
                        before.0.push(DefinitionView { key, source: path, content, edit }),
                        before.1,
                    )
                },
            },
        }
    }
}

fn joined_text(a: &str, b: &str, c: &str) -> (r: String)
    ensures
        r@ == a@ + b@ + c@,
{
    let mut s = a.to_string();
    append_str(&mut s, b);
    append_str(&mut s, c);
    s
}

fn has_key_exec(defs: &Vec<ProjectTaskDefinition>, key: &str) -> (r: bool)
    ensures
        r == has_key(defs@.map_values(|d: ProjectTaskDefinition| definition_view(d)), key@),
{
    let ghost views = defs@.map_values(|d: ProjectTaskDefinition| definition_view(d));
    let mut i: usize = 0;
    while i < defs.len()
        invariant
            i <= defs.len(),
            views == defs@.map_values(|d: ProjectTaskDefinition| definition_view(d)),
            forall|k: int| 0 <= k < i ==> #[trigger] views[k].key != key@,
        decreases defs.len() - i,
    {
        if crate::agent::str_eq(defs[i].key.as_str(), key) {
            assert(views[i as int].key == key@);
            return true;
        }
        i = i + 1;
    }
    false
}

/// Reads the project task files of a repository, in order: the tasks they
/// give, each key once, and the problems found.
pub fn gather_project_tasks(
    files: &Vec<(String, Result<Vec<u8>, String>)>,
    destination: &ScheduledTaskDestination,
) -> (r: (Vec<ProjectTaskDefinition>, Vec<String>))
    ensures
        r.0@.map_values(|d: ProjectTaskDefinition| definition_view(d)) == gathered(
            read_views(files@),
            destination@,
        ).0,
        r.1@.len() == gathered(read_views(files@), destination@).1.len(),
        forall|i: int|
            0 <= i < r.1@.len() ==> problem_reported(
                #[trigger] r.1@[i]@,
                gathered(read_views(files@), destination@).1[i],
            ),
{
    let mut defs: Vec<ProjectTaskDefinition> = Vec::new();
    let mut problems: Vec<String> = Vec::new();
    let mut i: usize = 0;
    while i < files.len()
        invariant
            i <= files.len(),
            defs@.map_values(|d: ProjectTaskDefinition| definition_view(d)) == gathered(
                read_views(files@.take(i as int)),
                destination@,
            ).0,
            problems@.len() == gathered(read_views(files@.take(i as int)), destination@).1.len(),
            forall|k: int|
                0 <= k < problems@.len() ==> problem_reported(
                    #[trigger] problems@[k]@,
                    gathered(read_views(files@.take(i as int)), destination@).1[k],
                ),
        decreases files.len() - i,
    {
        let ghost prior = gathered(read_views(files@.take(i as int)), destination@);
        let ghost before_defs = defs@;
        let ghost before_problems = problems@;
        assert(read_views(files@.take(i + 1)).drop_last() =~= read_views(files@.take(i as int)));
        assert(read_views(files@.take(i + 1)).last() == read_view(files@[i as int]));
        let path = &files[i].0;
        match &files[i].1 {
            Err(e) => {
                problems.push(joined_text(path.as_str(), ": ", e.as_str()));
                proof {
                    reveal_strlit(": ");
                    assert(problems@[problems@.len() - 1]@ == path@ + ": "@ + e@);
                    assert forall|k: int| 0 <= k < problems@.len() implies problem_reported(
                        #[trigger] problems@[k]@,
                        gathered(read_views(files@.take(i + 1)), destination@).1[k],
                    ) by {
                        if k < before_problems.len() {
                            assert(problems@[k] == before_problems[k]);
                        }
                    }
                }
            },
            Ok(content) => {
                match parse_project_task(content.as_slice(), path.as_str(), destination) {
                    Err(m) => {
                        let message = joined_text(path.as_str(), ": ", m.as_str());
                        problems.push(message);
                        proof {
                            let err = spec_project_task(content@, path_file_stem(path@), destination@)->Err_0;
                            assert(reports_text(m@, err));
                            assert(problem_reported(message@, Problem::Refused(path@, err)));
                            assert forall|k: int| 0 <= k < problems@.len() implies problem_reported(
                                #[trigger] problems@[k]@,
                                gathered(read_views(files@.take(i + 1)), destination@).1[k],
                            ) by {
                                if k < before_problems.len() {
                                    assert(problems@[k] == before_problems[k]);
                                }
                            }
                        }
                    },
                    Ok(definition) => {
                        if has_key_exec(&defs, definition.key.as_str()) {
                            let mut message = joined_text(
                                path.as_str(),
                                ": duplicate project task id `",
                                definition.key.as_str(),
                            );
                            let ghost unfinished = message@;
                            push_char(&mut message, '`');
                            proof {
                                reveal_strlit("`");
                                assert("`"@ =~= seq!['`']);
                                assert(message@ =~= unfinished + "`"@);
                            }
                            problems.push(message);
                            proof {
                                assert forall|k: int| 0 <= k < problems@.len() implies problem_reported(
                                    #[trigger] problems@[k]@,
                                    gathered(read_views(files@.take(i + 1)), destination@).1[k],
                                ) by {
                                    if k < before_problems.len() {
                                        assert(problems@[k] == before_problems[k]);
                                    }
                                }
                            }
                        } else {
                            defs.push(definition);
                            proof {
                                assert(defs@.map_values(|d: ProjectTaskDefinition| definition_view(d))
                                    =~= before_defs.map_values(|d: ProjectTaskDefinition| definition_view(d)).push(
                                    definition_view(defs@[defs@.len() - 1]),
                                ));
                            }
                        }
                    },
                }
            },
        }
        i = i + 1;
    }
    assert(files@.take(files@.len() as int) =~= files@);
    (defs, problems)
}

/// The ids of stored tasks whose key none of `keys` has, in order.
pub open spec fn missing_ids(known: Seq<(i64, Seq<char>)>, keys: Seq<Seq<char>>) -> Seq<i64>
    decreases known.len(),
{
    if known.len() == 0 {
        Seq::empty()
    } else if keys.contains(known.last().1) {
        missing_ids(known.drop_last(), keys)
    } else {
        missing_ids(known.drop_last(), keys).push(known.last().0)
    }
}

pub open spec fn known_views(known: Seq<(i64, String)>) -> Seq<(i64, Seq<char>)> {
    Seq::new(known.len(), |i: int| (known[i].0, known[i].1@))
}

pub open spec fn definition_keys(defs: Seq<ProjectTaskDefinition>) -> Seq<Seq<char>> {
    Seq::new(defs.len(), |i: int| defs[i].key@)
}

/// The stored project tasks of a repository whose file is gone: those whose
/// key no found task has.
pub fn missing_project_tasks(known: &Vec<(i64, String)>, definitions: &Vec<ProjectTaskDefinition>) -> (r: Vec<i64>)
    ensures
        r@ == missing_ids(known_views(known@), definition_keys(definitions@)),
{
    let ghost keys = definition_keys(definitions@);
    let mut out: Vec<i64> = Vec::new();
    let mut i: usize = 0;
    while i < known.len()
        invariant
            i <= known.len(),
            keys == definition_keys(definitions@),
            out@ == missing_ids(known_views(known@).take(i as int), keys),
        decreases known.len() - i,
    {
        assert(known_views(known@).take(i + 1).drop_last() =~= known_views(known@).take(i as int));
        let mut found = false;
        let mut j: usize = 0;
        while j < definitions.len()
            invariant
                i < known.len(),
                j <= definitions.len(),
                keys == definition_keys(definitions@),
                found == (exists|k: int| 0 <= k < j && #[trigger] keys[k] == known@[i as int].1@),
            decreases definitions.len() - j,
        {
            if crate::agent::str_eq(definitions[j].key.as_str(), known[i].1.as_str()) {
                assert(keys[j as int] == known@[i as int].1@);
                found = true;
            }
            j = j + 1;
        }
        proof {
            if found {
                let k = choose|k: int| 0 <= k < definitions.len() && #[trigger] keys[k] == known@[i as int].1@;
                assert(keys.contains(known@[i as int].1@));
            } else {
                if keys.contains(known@[i as int].1@) {
                    let k = choose|k: int| 0 <= k < keys.len() && keys[k] == known@[i as int].1@;
                    assert(keys[k] == known@[i as int].1@);
                }
            }
        }
        if !found {
            out.push(known[i].0);
        }
        i = i + 1;
    }
    assert(known_views(known@).take(known@.len() as int) =~= known_views(known@));
    out
}

/// `now` plus the task's interval, saturated at the top of `i64`; an
/// interval that is no positive `i64` counts as the largest.
pub open spec fn fresh_next_run(now: int, interval_minutes: nat) -> int {
    saturate(
        now + match spec_interval_ms(interval_minutes) {
            Ok(ms) => ms,
            Err(_) => i64::MAX as int,
        },
    )
}

/// When a task read from a file runs next: a stored task with the same
/// interval keeps its next run; otherwise one interval from now.
pub open spec fn spec_next_run_after(kept: Option<(u64, i64)>, interval_minutes: u64, now: i64) -> int {
    match kept {
        Some(stored) => if stored.0 == interval_minutes {
            stored.1 as int
        } else {
            fresh_next_run(now as int, interval_minutes as nat)
        },
        None => fresh_next_run(now as int, interval_minutes as nat),
    }
}

pub fn next_run_after(kept: Option<(u64, i64)>, interval_minutes: u64, now: i64) -> (r: i64)
    ensures
        r == spec_next_run_after(kept, interval_minutes, now),
{
    match kept {
        Some((interval, next)) => if interval == interval_minutes {
            return next;
        },
        None => {},
    }
    let ms: i64 = match interval_ms(interval_minutes) {
        Ok(ms) => ms,
        Err(_) => i64::MAX,
    };
    let sum: i128 = now as i128 + ms as i128;
    if sum > i64::MAX as i128 {
        i64::MAX
    } else {
        sum as i64
    }
}

/// A project task as stored: its id, interval, next run, approved content
/// and destination.
pub struct StoredProjectTask {
    pub id: i64,
    pub interval_minutes: u64,
    pub next_run_ms: i64,
    pub approved_content: Option<Vec<u8>>,
    pub destination: Vec<u8>,
}

/// How a found project task is written to the store.
#[derive(Debug, PartialEq, Eq)]
pub enum ProjectTaskWrite {
    /// The key belongs to a task of another checkout: it is left alone.
    Skip,
    /// The stored task takes the file's fields; it stays enabled only when
    /// the file still holds the approved content.
    Update { id: i64, keep_enabled: bool, next_run_ms: i64 },
    /// A new task, disabled until approved.
    Insert { next_run_ms: i64 },
}

/// How the project task `definition`, found in the checkout stored as
/// `destination_path`, is written, given the stored task with its key.
pub open spec fn spec_project_task_write(
    existing: Option<(i64, u64, i64, Option<Seq<u8>>, Seq<u8>)>,
    definition: DefinitionView,
    destination_path: Seq<u8>,
    now: i64,
) -> ProjectTaskWrite {
    match existing {
        None => ProjectTaskWrite::Insert {
            next_run_ms: fresh_next_run(now as int, definition.edit.interval_minutes) as i64,
        },
        Some(stored) => if stored.4 != destination_path {
            ProjectTaskWrite::Skip
        } else {
            ProjectTaskWrite::Update {
                id: stored.0,
                keep_enabled: stored.3 == Some(definition.content),
                next_run_ms: (if stored.1 as nat == definition.edit.interval_minutes {
                    stored.2 as int
                } else {
                    fresh_next_run(now as int, definition.edit.interval_minutes)
                }) as i64,
            }
        },
    }
}

pub open spec fn stored_view(t: StoredProjectTask) -> (i64, u64, i64, Option<Seq<u8>>, Seq<u8>) {
    (
        t.id,
        t.interval_minutes,
        t.next_run_ms,
        match t.approved_content {
            Some(c) => Some(c@),
            None => None,
        },
        t.destination@,
    )
}

pub fn project_task_write(
    existing: &Option<StoredProjectTask>,
    definition: &ProjectTaskDefinition,
    destination_path: &[u8],
    now: i64,
) -> (r: ProjectTaskWrite)
    ensures
        r == spec_project_task_write(
            match existing {
                Some(t) => Some(stored_view(*t)),
                None => None,
            },
            definition_view(*definition),
            destination_path@,
            now,
        ),
{
    let interval = definition.edit.interval_minutes;
    match existing {
        None => ProjectTaskWrite::Insert { next_run_ms: next_run_after(None, interval, now) },
        Some(stored) => {
            if !same_bytes(stored.destination.as_slice(), destination_path) {
                return ProjectTaskWrite::Skip;
            }
            let keep_enabled = match &stored.approved_content {
                Some(approved) => same_bytes(approved.as_slice(), definition.content.as_slice()),
                None => false,
            };
            ProjectTaskWrite::Update {
                id: stored.id,
                keep_enabled,
                next_run_ms: next_run_after(Some((stored.interval_minutes, stored.next_run_ms)), interval, now),
            }
        },
    }
}

/// Problems found while taking task files in: none, or all of them after
/// `prefix`, joined by `; `.
pub fn problems_summary(prefix: &str, problems: &Vec<String>) -> (r: Result<(), String>)
    ensures
        problems@.len() == 0 ==> r is Ok,
        problems@.len() > 0 ==> (r matches Err(m) && m@ == prefix@ + join(
            problems@.map_values(|p: String| p@),
            "; "@,
        )),
{
    if problems.len() == 0 {
        return Ok(());
    }
    let mut parts: Vec<Vec<char>> = Vec::new();
    let mut i: usize = 0;
    while i < problems.len()
        invariant
            i <= problems.len(),
            parts@.map_values(|p: Vec<char>| p@) == problems@.take(i as int).map_values(|p: String| p@),
        decreases problems.len() - i,
    {
        let ghost before = parts@;
        parts.push(chars_of(problems[i].as_str()));
        assert(parts@.map_values(|p: Vec<char>| p@) =~= before.map_values(|p: Vec<char>| p@).push(problems@[i as int]@));
        assert(problems@.take(i + 1).map_values(|p: String| p@) =~= problems@.take(i as int).map_values(|p: String| p@).push(problems@[i as int]@));
        i = i + 1;
    }
    assert(problems@.take(problems@.len() as int) =~= problems@);
    let joined = join_chars(&parts, &chars_of("; "));
    let mut m = prefix.to_string();
    append_str(&mut m, crate::text::string_of(joined.as_slice()).as_str());
    Err(m)
}

/// The lower-case hexadecimal digit of `n`.
pub open spec fn hex_digit(n: int) -> char {
    seq!['0', '1', '2', '3', '4', '5', '6', '7', '8', '9', 'a', 'b', 'c', 'd', 'e', 'f'][n]
}

/// Bytes in lower-case hexadecimal, two digits each.
pub open spec fn hex(bytes: Seq<u8>) -> Seq<char>
    decreases bytes.len(),
{
    if bytes.len() == 0 {
        Seq::empty()
    } else {
        hex(bytes.drop_last()) + seq![hex_digit(bytes.last() as int / 16), hex_digit(bytes.last() as int % 16)]
    }
}

/// The store's marker that the earlier task files of the repository with
/// `identity` were taken in.
pub fn legacy_repository_marker(identity: &[u8]) -> (r: String)
    ensures
        r@ == "legacy_repository_task_files_imported:"@ + hex(identity@),
{
    let digits: [char; 16] = ['0', '1', '2', '3', '4', '5', '6', '7', '8', '9', 'a', 'b', 'c', 'd', 'e', 'f'];
    assert(digits@ == seq!['0', '1', '2', '3', '4', '5', '6', '7', '8', '9', 'a', 'b', 'c', 'd', 'e', 'f']);
    let mut out = String::from_str("legacy_repository_task_files_imported:");
    let ghost start = out@;
    let mut i: usize = 0;
    while i < identity.len()
        invariant
            i <= identity.len(),
            digits@ == seq!['0', '1', '2', '3', '4', '5', '6', '7', '8', '9', 'a', 'b', 'c', 'd', 'e', 'f'],
            out@ == start + hex(identity@.take(i as int)),
        decreases identity.len() - i,
    {
        let b = identity[i];
        assert(identity@.take(i + 1).drop_last() =~= identity@.take(i as int));
        push_char(&mut out, digits[(b / 16) as usize]);
        push_char(&mut out, digits[(b % 16) as usize]);
        i = i + 1;
    }
    assert(identity@.take(identity@.len() as int) =~= identity@);
    out
}

/// Why a project task cannot be enabled: its file could not be read (the
/// task is then marked missing), or its content is refused.
#[derive(Debug)]
pub enum EnableRefusal {
    Unreadable(String),
    Refused(String),
}

/// Enables a project task from its file as read now: the file must hold a
/// task with the stored key, whose next run falls one interval from `now`.
pub fn enable_project_task(
    read: &Result<Vec<u8>, String>,
    source: &str,
    destination: &ScheduledTaskDestination,
    stored_key: &str,
    now: i64,
) -> (r: Result<(ProjectTaskDefinition, i64), EnableRefusal>)
    ensures
        match read {
            Err(e) => r matches Err(EnableRefusal::Unreadable(m)) && m@ == "Could not read "@ + source@
                + ": "@ + e@,
            Ok(content) => match spec_project_task(content@, path_file_stem(source@), destination@) {
                Err(err) => r matches Err(EnableRefusal::Refused(m)) && reports_text(m@, err),
                Ok((key, edit)) => if key != stored_key@ {
                    r matches Err(EnableRefusal::Refused(m)) && m@
                        == "project task id changed; refresh project tasks first"@
                } else {
                    match spec_interval_ms(edit.interval_minutes) {
                        Err(e) => r matches Err(EnableRefusal::Refused(m)) && m@ == e,
                        Ok(ms) => if now + ms > i64::MAX {
                            r matches Err(EnableRefusal::Refused(m)) && m@ == "schedule is too large"@
                        } else {
                            r matches Ok(enabled) && definition_view(enabled.0) == (DefinitionView {
                                key,
                                source: source@,
                                content: content@,
                                edit,
                            }) && enabled.1 == now + ms
                        },
                    }
                },
            },
        },
{
    let content = match read {
        Err(e) => {
            let mut m = String::from_str("Could not read ");
            append_str(&mut m, source);
            append_str(&mut m, ": ");
            append_str(&mut m, e.as_str());
            return Err(EnableRefusal::Unreadable(m));
        },
        Ok(content) => content,
    };
    let definition = match parse_project_task(content.as_slice(), source, destination) {
        Ok(d) => d,
        Err(m) => return Err(EnableRefusal::Refused(m)),
    };
    if !crate::agent::str_eq(definition.key.as_str(), stored_key) {
        return Err(EnableRefusal::Refused(String::from_str("project task id changed; refresh project tasks first")));
    }
    let ms = match interval_ms(definition.edit.interval_minutes) {
        Ok(ms) => ms,
        Err(m) => return Err(EnableRefusal::Refused(m)),
    };
    match now.checked_add(ms) {
        Some(next) => Ok((definition, next)),
        None => Err(EnableRefusal::Refused(String::from_str("schedule is too large"))),
    }
}

} // verus!
