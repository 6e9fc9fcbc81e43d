//! The command line: what each command does to the task list, and what it says.
//!
//! Reading and writing files is left to the front end: a command takes the tasks
//! that were loaded, and its outcome says what to write and print.

use crate::app;
use crate::config::Config;
use crate::model;
use crate::model::{Status, SubTask, SubTaskModel, Task, TaskModel, Thresholds, Timestamp};
use crate::order;
use crate::text;
use vstd::prelude::*;
use vstd::string::*;

verus! {

/// A fermenting todo list. Without a command, the interactive list opens.
#[derive(Debug, PartialEq, Eq)]
pub struct Cli {
    pub command: Option<Command>,
}

/// What to do.
#[derive(Debug, PartialEq, Eq)]
#[allow(inconsistent_fields)]
pub enum Command {
    /// Add a task.
    Add { title: String, notes: Vec<String>, subtasks: Vec<String>, tags: Vec<String> },
    /// List tasks (hides done + dormant by default).
    List { status: Option<StatusFilter>, tag: Option<String>, all: bool, json: bool },
    /// Mark a task done.
    Done { id: u64 },
    /// Edit a task's title (bumps it back to Hot). Notes are managed with `note`.
    Edit { id: u64, title: Option<String> },
    /// Mark a task still-relevant, reviving it to Hot.
    Revive { id: u64 },
    /// Delete a task.
    Rm { id: u64 },
    /// Export all tasks to a JSON file.
    Export { path: String },
    /// Append tasks from a JSON file (ids are reassigned).
    Import { path: String },
    /// Show config (and paths), or write the default file.
    Config { json: bool, init: bool },
    /// Show a task with its (indexed) subtasks.
    Show { id: u64 },
    /// Print the version.
    Version,
    /// Work with a task's subtasks (index is 1-based).
    Subtask { action: SubtaskCmd },
    /// Work with a task's notes (details/considerations; index is 1-based).
    Note { action: NoteCmd },
    /// Work with a task's tags/categories.
    Tag { action: TagCmd },
}

/// What to do with a task's tags.
#[derive(Debug, PartialEq, Eq)]
pub enum TagCmd {
    /// Add a tag to a task.
    Add { task_id: u64, tag: String },
    /// Remove a tag from a task.
    Rm { task_id: u64, tag: String },
}

/// What to do with a task's notes.
#[derive(Debug, PartialEq, Eq)]
pub enum NoteCmd {
    /// Append a note.
    Add { task_id: u64, text: String },
    /// Remove a note.
    Rm { task_id: u64, index: usize },
}

/// What to do with a task's subtasks.
#[derive(Debug, PartialEq, Eq)]
pub enum SubtaskCmd {
    /// Append a subtask.
    Add { task_id: u64, title: String },
    /// Toggle a subtask done.
    Done { task_id: u64, index: usize },
    /// Remove a subtask.
    Rm { task_id: u64, index: usize },
}

/// A band to list.
#[derive(Debug, Clone, Copy, PartialEq, Eq, Structural)]
pub enum StatusFilter {
    Hot,
    Decaying,
    Dormant,
    Bubbling,
}

impl StatusFilter {
    /// The band that the filter lets through.
    pub open spec fn band(self) -> Status {
        match self {
            StatusFilter::Hot => Status::Hot,
            StatusFilter::Decaying => Status::Decaying,
            StatusFilter::Dormant => Status::Dormant,
            StatusFilter::Bubbling => Status::Bubbling,
        }
    }

    /// The band that the filter lets through.
    fn status(self) -> (r: Status)
        ensures
            r == self.band(),
    {
        match self {
            StatusFilter::Hot => Status::Hot,
            StatusFilter::Decaying => Status::Decaying,
            StatusFilter::Dormant => Status::Dormant,
            StatusFilter::Bubbling => Status::Bubbling,
        }
    }
}

/// A task's lifecycle status under a configuration.
pub fn status_of(t: &Task, cfg: &Config, now: Timestamp) -> (r: Status)
    ensures
        r == t@.status(cfg@.thresholds(), now),
{
    t.status(&cfg.thresholds(), now)
}

/// The tags with a `#` before each.
pub open spec fn hashed(tags: Seq<Seq<char>>) -> Seq<Seq<char>> {
    Seq::new(tags.len(), |i: int| "#"@ + tags[i])
}

/// Trailing "  #a #b" for display, or empty when untagged.
pub open spec fn tag_suffix_of(tags: Seq<Seq<char>>) -> Seq<char> {
    if tags.len() == 0 {
        Seq::empty()
    } else {
        "  "@ + text::joined(hashed(tags), " "@)
    }
}

/// Trailing "  #a #b" for display, or empty when untagged.
pub fn tag_suffix(t: &Task) -> (r: String)
    ensures
        r@ == tag_suffix_of(t@.tags),
{
    if t.tags.len() == 0 {
        return String::new();
    }
    let mut chips: Vec<String> = Vec::new();
    let mut i: usize = 0;
    while i < t.tags.len()
        invariant
            i <= t.tags@.len(),
            chips@.len() == i,
            forall|j: int| 0 <= j < i ==> (#[trigger] chips@[j])@ == hashed(t@.tags)[j],
        decreases t.tags@.len() - i,
    {
        let mut c = "#".to_owned();
        c.append(t.tags[i].as_str());
        chips.push(c);
        i += 1;
    }
    assert(text::texts(chips@) =~= hashed(t@.tags));
    let mut r = "  ".to_owned();
    r.append(text::join(&chips, " ").as_str());
    r
}

/// ` [done/total]`, or empty without subtasks.
pub open spec fn progress_of(done: nat, total: nat) -> Seq<char> {
    if total > 0 {
        " ["@ + text::decimal(done) + "/"@ + text::decimal(total) + "]"@
    } else {
        Seq::empty()
    }
}

/// ` [done/total]`, or empty without subtasks.
pub fn progress_text(done: usize, total: usize) -> (r: String)
    ensures
        r@ == progress_of(done as nat, total as nat),
{
    if total == 0 {
        return String::new();
    }
    let mut r = " [".to_owned();
    r.append(text::to_decimal(done as u64).as_str());
    r.append("/");
    r.append(text::to_decimal(total as u64).as_str());
    r.append("]");
    r
}

/// What a status is called.
pub open spec fn status_name(s: Status) -> Seq<char> {
    match s {
        Status::Hot => "hot"@,
        Status::Decaying => "decaying"@,
        Status::Dormant => "dormant"@,
        Status::Bubbling => "bubbling"@,
    }
}

/// What a status is called.
pub fn status_str(s: Status) -> (r: &'static str)
    ensures
        r@ == status_name(s),
{
    match s {
        Status::Hot => "hot",
        Status::Decaying => "decaying",
        Status::Dormant => "dormant",
        Status::Bubbling => "bubbling",
    }
}

/// Whether a task is listed: it carries the tag asked for, and it is in the band
/// asked for or, without one, it is open and not dormant unless all are wanted.
pub open spec fn listed(
    t: TaskModel,
    th: Thresholds,
    filter: Option<StatusFilter>,
    tag: Option<Seq<char>>,
    all: bool,
    now: u64,
) -> bool {
    &&& tag matches Some(tg) ==> t.carries(model::tag_of(tg))
    &&& match filter {
        Some(f) => t.status(th, now) == f.band(),
        None => all || (!t.done && t.status(th, now) != Status::Dormant),
    }
}

/// What tasks are listed by: the most recently updated come first.
pub open spec fn recency(tasks: Seq<TaskModel>) -> Seq<(u64, u64)> {
    Seq::new(tasks.len(), |i: int| (0, (u64::MAX - tasks[i].last_updated) as u64))
}

/// The positions of the tasks that are listed, most recently updated first.
pub open spec fn selection(
    tasks: Seq<TaskModel>,
    th: Thresholds,
    filter: Option<StatusFilter>,
    tag: Option<Seq<char>>,
    all: bool,
    now: u64,
) -> Seq<usize> {
    order::arrangement(
        recency(tasks),
        Seq::new(tasks.len(), |i: int| listed(tasks[i], th, filter, tag, all, now)),
    )
}

/// An optional text's characters.
pub open spec fn opt_str(s: Option<&str>) -> Option<Seq<char>> {
    match s {
        Some(t) => Some(t@),
        None => None,
    }
}

/// The positions of the tasks that are listed, most recently updated first.
fn select_positions(
    tasks: &[Task],
    cfg: &Config,
    filter: Option<StatusFilter>,
    tag: Option<&str>,
    all: bool,
    now: Timestamp,
) -> (r: Vec<usize>)
    ensures
        r@ == selection(
            model::task_models(tasks@),
            cfg@.thresholds(),
            filter,
            opt_str(tag),
            all,
            now,
        ),
        forall|p: int| 0 <= p < r@.len() ==> (#[trigger] r@[p]) < tasks@.len(),
{
    let ghost models = model::task_models(tasks@);
    let ghost th = cfg@.thresholds();
    let mut keys: Vec<(u64, u64)> = Vec::new();
    let mut keep: Vec<bool> = Vec::new();
    let mut i: usize = 0;
    while i < tasks.len()
        invariant
            i <= tasks@.len(),
            models == model::task_models(tasks@),
            th == cfg@.thresholds(),
            keys@.len() == i,
            keep@.len() == i,
            forall|j: int| 0 <= j < i ==> #[trigger] keys@[j] == recency(models)[j],
            forall|j: int|
                0 <= j < i ==> #[trigger] keep@[j] == listed(
                    models[j],
                    th,
                    filter,
                    opt_str(tag),
                    all,
                    now,
                ),
        decreases tasks@.len() - i,
    {
        let t = &tasks[i];
        assert(models[i as int] == t@);
        let tagged = match tag {
            Some(tg) => t.has_tag(tg),
            None => true,
        };
        let st = status_of(t, cfg, now);
        let wanted = match filter {
            Some(f) => st == f.status(),
            None => all || (!t.done && st != Status::Dormant),
        };
        keys.push((0, u64::MAX - t.last_updated));
        keep.push(tagged && wanted);
        i += 1;
    }
    assert(keys@ =~= recency(models));
    assert(keep@ =~= Seq::new(
        models.len(),
        |i: int| listed(models[i], th, filter, opt_str(tag), all, now),
    ));
    order::arrange(&keys, &keep)
}

/// Filtered + sorted (most-recently-updated first) view for `list`.
pub fn select<'a>(
    tasks: &'a [Task],
    cfg: &Config,
    filter: Option<StatusFilter>,
    tag: Option<&str>,
    all: bool,
    now: Timestamp,
) -> (r: Vec<&'a Task>)
    ensures
        ({
            let positions = selection(
                model::task_models(tasks@),
                cfg@.thresholds(),
                filter,
                opt_str(tag),
                all,
                now,
            );
            &&& r@.len() == positions.len()
            &&& forall|p: int|
                0 <= p < r@.len() ==> positions[p] < tasks@.len() && *(#[trigger] r@[p])
                    == tasks@[positions[p] as int]
        }),
{
    let positions = select_positions(tasks, cfg, filter, tag, all, now);
    let mut r: Vec<&'a Task> = Vec::new();
    let mut p: usize = 0;
    while p < positions.len()
        invariant
            p <= positions@.len(),
            r@.len() == p,
            forall|k: int| 0 <= k < positions@.len() ==> (#[trigger] positions@[k]) < tasks@.len(),
            forall|k: int| 0 <= k < p ==> *(#[trigger] r@[k]) == tasks@[positions@[k] as int],
        decreases positions@.len() - p,
    {
        r.push(&tasks[positions[p]]);
        p += 1;
    }
    r
}

/// A number between two texts.
pub open spec fn about(pre: Seq<char>, n: nat, post: Seq<char>) -> Seq<char> {
    pre + text::decimal(n) + post
}

/// A number between two texts.
fn numbered(pre: &str, n: u64, post: &str) -> (r: String)
    ensures
        r@ == about(pre@, n as nat, post@),
{
    let mut r = pre.to_owned();
    r.append(text::to_decimal(n).as_str());
    r.append(post);
    r
}

/// What is said when there is no task with an id.
pub open spec fn no_task(id: u64) -> Seq<char> {
    about("no task with id "@, id as nat, ""@)
}

/// The first task with an id, to be changed.
pub fn find_mut(tasks: &mut Vec<Task>, id: u64) -> (r: Result<&mut Task, String>)
    ensures
        match app::find_id(model::task_models(old(tasks)@), id) {
            Some(i) => {
                &&& r is Ok
                &&& i < old(tasks)@.len()
                &&& *r->Ok_0 == old(tasks)@[i as int]
                &&& final(tasks)@ == old(tasks)@.update(i as int, *final(r->Ok_0))
            },
            None => r is Err && r->Err_0@ == no_task(id) && final(tasks)@ == old(tasks)@,
        },
{
    match app::find_index(tasks, id) {
        Some(i) => Ok(&mut tasks[i]),
        None => Err(numbered("no task with id ", id, "")),
    }
}

/// The slot that a 1-based index stands for, or that there is none.
pub open spec fn slot(
    index: usize,
    len: nat,
    what: Seq<char>,
    task_id: u64,
) -> Result<usize, Seq<char>> {
    if 1 <= index <= len {
        Ok((index - 1) as usize)
    } else {
        Err(
            "no "@ + what + " "@ + text::decimal(index as nat) + " on task "@ + text::decimal(
                task_id as nat,
            ),
        )
    }
}

/// Resolve a 1-based index into a 0-based slot within `len`, or a clear error.
pub fn one_based(index: usize, len: usize, what: &str, task_id: u64) -> (r: Result<usize, String>)
    ensures
        match slot(index, len as nat, what@, task_id) {
            Ok(i) => r == Ok::<usize, String>(i),
            Err(e) => r is Err && r->Err_0@ == e,
        },
{
    if 1 <= index && index <= len {
        return Ok(index - 1);
    }
    let mut e = "no ".to_owned();
    e.append(what);
    e.append(" ");
    e.append(text::to_decimal(index as u64).as_str());
    e.append(" on task ");
    e.append(text::to_decimal(task_id).as_str());
    Err(e)
}

/// How long ago a time was, in the largest unit of which it is at least one.
pub open spec fn ago_of(now: u64, before: u64) -> Seq<char> {
    let secs = if now >= before {
        now - before
    } else {
        0
    };
    if secs >= 604_800 {
        about(""@, (secs / 604_800) as nat, "w ago"@)
    } else if secs >= 86_400 {
        about(""@, (secs / 86_400) as nat, "d ago"@)
    } else if secs >= 3_600 {
        about(""@, (secs / 3_600) as nat, "h ago"@)
    } else if secs >= 60 {
        about(""@, (secs / 60) as nat, "m ago"@)
    } else {
        "just now"@
    }
}

/// Compact relative age ("3d ago") using the largest whole unit.
pub fn ago(now: Timestamp, before: Timestamp) -> (r: String)
    ensures
        r@ == ago_of(now, before),
{
    let secs: u64 = now.saturating_sub(before);
    if secs >= 604_800 {
        numbered("", secs / 604_800, "w ago")
    } else if secs >= 86_400 {
        numbered("", secs / 86_400, "d ago")
    } else if secs >= 3_600 {
        numbered("", secs / 3_600, "h ago")
    } else if secs >= 60 {
        numbered("", secs / 60, "m ago")
    } else {
        "just now".to_owned()
    }
}

/// A task with every note that is not blank appended.
pub open spec fn noted_all(t: TaskModel, notes: Seq<Seq<char>>, now: u64) -> TaskModel
    decreases notes.len(),
{
    if notes.len() == 0 {
        t
    } else {
        noted_all(t, notes.drop_last(), now).noted(notes.last(), now)
    }
}

/// A task with every tag added.
pub open spec fn tagged_all(t: TaskModel, tags: Seq<Seq<char>>) -> TaskModel
    decreases tags.len(),
{
    if tags.len() == 0 {
        t
    } else {
        tagged_all(t, tags.drop_last()).tagged(model::tag_of(tags.last()))
    }
}

/// Open subtasks with the given titles.
pub open spec fn open_subtasks(titles: Seq<Seq<char>>) -> Seq<SubTaskModel> {
    Seq::new(titles.len(), |i: int| SubTaskModel { title: titles[i], done: false })
}

/// The task that `add` makes.
pub open spec fn composed(
    id: u64,
    title: Seq<char>,
    notes: Seq<Seq<char>>,
    subtasks: Seq<Seq<char>>,
    tags: Seq<Seq<char>>,
    now: u64,
) -> TaskModel {
    let noted = noted_all(model::new_task(id, title, now), notes, now);
    tagged_all(TaskModel { subtasks: open_subtasks(subtasks), ..noted }, tags)
}

/// The task that `add` makes.
fn compose(
    id: u64,
    title: String,
    notes: Vec<String>,
    subtasks: Vec<String>,
    tags: Vec<String>,
    now: Timestamp,
) -> (r: Task)
    ensures
        r@ == composed(
            id,
            title@,
            text::texts(notes@),
            text::texts(subtasks@),
            text::texts(tags@),
            now,
        ),
{
    let mut t = Task::new_at(id, title, now);
    let ghost fresh = t@;
    let ghost all = text::texts(notes@);
    let mut i: usize = 0;
    assert(all.take(0) =~= Seq::<Seq<char>>::empty());
    while i < notes.len()
        invariant
            i <= notes@.len(),
            all == text::texts(notes@),
            t@ == noted_all(fresh, all.take(i as int), now),
        decreases notes@.len() - i,
    {
        t.add_note_at(notes[i].as_str(), now);
        assert(all.take(i + 1).drop_last() =~= all.take(i as int));
        assert(all.take(i + 1).last() == notes@[i as int]@);
        i += 1;
    }
    assert(all.take(i as int) =~= all);
    let ghost noted = t@;
    let mut list: Vec<SubTask> = Vec::new();
    let mut i: usize = 0;
    while i < subtasks.len()
        invariant
            i <= subtasks@.len(),
            list@.len() == i,
            forall|j: int|
                0 <= j < i ==> (#[trigger] list@[j])@ == open_subtasks(text::texts(subtasks@))[j],
        decreases subtasks@.len() - i,
    {
        list.push(SubTask { title: subtasks[i].clone(), done: false });
        i += 1;
    }
    assert(model::subtask_models(list@) =~= open_subtasks(text::texts(subtasks@)));
    t.subtasks = list;
    let ghost stepped = t@;
    let ghost all = text::texts(tags@);
    let mut i: usize = 0;
    assert(all.take(0) =~= Seq::<Seq<char>>::empty());
    while i < tags.len()
        invariant
            i <= tags@.len(),
            all == text::texts(tags@),
            t@ == tagged_all(stepped, all.take(i as int)),
        decreases tags@.len() - i,
    {
        t.add_tag(tags[i].as_str());
        assert(all.take(i + 1).drop_last() =~= all.take(i as int));
        assert(all.take(i + 1).last() == tags@[i as int]@);
        i += 1;
    }
    assert(all.take(i as int) =~= all);
    t
}

impl Command {
    /// The task that a command changes, if it changes one.
    pub open spec fn target(self) -> Option<u64> {
        match self {
            Command::Done { id } => Some(id),
            Command::Edit { id, title: _ } => Some(id),
            Command::Revive { id } => Some(id),
            Command::Subtask { action: SubtaskCmd::Add { task_id, title: _ } } => Some(task_id),
            Command::Subtask { action: SubtaskCmd::Done { task_id, index: _ } } => Some(task_id),
            Command::Subtask { action: SubtaskCmd::Rm { task_id, index: _ } } => Some(task_id),
            Command::Tag { action: TagCmd::Add { task_id, tag: _ } } => Some(task_id),
            Command::Tag { action: TagCmd::Rm { task_id, tag: _ } } => Some(task_id),
            Command::Note { action: NoteCmd::Add { task_id, text: _ } } => Some(task_id),
            Command::Note { action: NoteCmd::Rm { task_id, index: _ } } => Some(task_id),
            _ => None,
        }
    }

    /// What a command makes of its task, or why it refuses.
    pub open spec fn changed(self, t: TaskModel, now: u64) -> Result<TaskModel, Seq<char>> {
        match self {
            Command::Done { id } => Ok(TaskModel { done: true, ..t }),
            Command::Edit { id, title } => Ok(
                TaskModel {
                    title: match title {
                        Some(s) => s@,
                        None => t.title,
                    },
                    ..t
                }.touched(now),
            ),
            Command::Revive { id } => Ok(t.touched(now)),
            Command::Subtask { action: SubtaskCmd::Add { task_id, title } } => Ok(
                TaskModel {
                    subtasks: t.subtasks.push(SubTaskModel { title: title@, done: false }),
                    ..t
                }.touched(now),
            ),
            Command::Subtask { action: SubtaskCmd::Done { task_id, index } } => match slot(
                index,
                t.subtasks.len(),
                "subtask"@,
                task_id,
            ) {
                Ok(i) => {
                    let s = t.subtasks[i as int];
                    Ok(
                        TaskModel {
                            subtasks: t.subtasks.update(
                                i as int,
                                SubTaskModel { done: !s.done, ..s },
                            ),
                            ..t
                        }.touched(now),
                    )
                },
                Err(e) => Err(e),
            },
            Command::Subtask { action: SubtaskCmd::Rm { task_id, index } } => match slot(
                index,
                t.subtasks.len(),
                "subtask"@,
                task_id,
            ) {
                Ok(i) => Ok(
                    TaskModel { subtasks: t.subtasks.remove(i as int), ..t }.touched(now),
                ),
                Err(e) => Err(e),
            },
            Command::Tag { action: TagCmd::Add { task_id, tag } } => {
                let n = model::tag_of(tag@);
                if n is Some && !t.carries(n) {
                    Ok(t.tagged(n).touched(now))
                } else {
                    Err(about("task "@, task_id as nat, " already has tag or tag is empty"@))
                }
            },
            Command::Tag { action: TagCmd::Rm { task_id, tag } } => {
                let n = model::tag_of(tag@);
                if t.carries(n) {
                    Ok(t.untagged(n).touched(now))
                } else {
                    Err(about("task "@, task_id as nat, " has no tag '"@) + tag@ + "'"@)
                }
            },
            Command::Note { action: NoteCmd::Add { task_id, text } } => {
                if text::trim(text@).len() > 0 {
                    Ok(t.noted(text@, now).touched(now))
                } else {
                    Err(about("note text for task "@, task_id as nat, " is empty"@))
                }
            },
            Command::Note { action: NoteCmd::Rm { task_id, index } } => match slot(
                index,
                t.notes.len(),
                "note"@,
                task_id,
            ) {
                Ok(i) => Ok(TaskModel { notes: t.notes.remove(i as int), ..t }.touched(now)),
                Err(e) => Err(e),
            },
            _ => Ok(t),
        }
    }

    /// What a command says once its task is changed and saved.
    pub open spec fn report(self) -> Seq<char> {
        match self {
            Command::Done { id } => about("marked task "@, id as nat, " done"@),
            Command::Edit { id, title: _ } => about("edited task "@, id as nat, ""@),
            Command::Revive { id } => about("revived task "@, id as nat, ""@),
            Command::Subtask { action: SubtaskCmd::Add { task_id, title: _ } } => about(
                "added subtask to task "@,
                task_id as nat,
                ""@,
            ),
            Command::Subtask { action: SubtaskCmd::Done { task_id, index } } => about(
                "toggled subtask "@,
                index as nat,
                " on task "@,
            ) + text::decimal(task_id as nat),
            Command::Subtask { action: SubtaskCmd::Rm { task_id, index } } => about(
                "removed subtask "@,
                index as nat,
                " from task "@,
            ) + text::decimal(task_id as nat),
            Command::Tag { action: TagCmd::Add { task_id, tag: _ } } => about(
                "tagged task "@,
                task_id as nat,
                ""@,
            ),
            Command::Tag { action: TagCmd::Rm { task_id, tag: _ } } => about(
                "untagged task "@,
                task_id as nat,
                ""@,
            ),
            Command::Note { action: NoteCmd::Add { task_id, text: _ } } => about(
                "noted task "@,
                task_id as nat,
                ""@,
            ),
            Command::Note { action: NoteCmd::Rm { task_id, index } } => about(
                "removed note "@,
                index as nat,
                " from task "@,
            ) + text::decimal(task_id as nat),
            _ => Seq::empty(),
        }
    }
}

/// Changes a task's subtasks.
fn change_subtasks(action: SubtaskCmd, t: &mut Task, now: Timestamp) -> (r: Result<String, String>)
    ensures
        match (Command::Subtask { action }).changed(old(t)@, now) {
            Ok(m) => r is Ok && r->Ok_0@ == (Command::Subtask { action }).report() && final(t)@ == m,
            Err(e) => r is Err && r->Err_0@ == e && final(t)@ == old(t)@,
        },
{
    let ghost before = t@;
    match action {
        SubtaskCmd::Add { task_id, title } => {
            t.subtasks.push(SubTask { title, done: false });
            t.touch_at(now);
            assert(t@.subtasks =~= before.subtasks.push(
                SubTaskModel { title: title@, done: false },
            ));
            Ok(numbered("added subtask to task ", task_id, ""))
        },
        SubtaskCmd::Done { task_id, index } => {
            let i: usize = match one_based(index, t.subtasks.len(), "subtask", task_id) {
                Ok(i) => i,
                Err(e) => return Err(e),
            };
            let done = !t.subtasks[i].done;
            t.subtasks[i].done = done;
            t.touch_at(now);
            assert(t@.subtasks =~= before.subtasks.update(
                i as int,
                SubTaskModel { done, ..before.subtasks[i as int] },
            ));
            let mut m = numbered("toggled subtask ", index as u64, " on task ");
            m.append(text::to_decimal(task_id).as_str());
            Ok(m)
        },
        SubtaskCmd::Rm { task_id, index } => {
            let i: usize = match one_based(index, t.subtasks.len(), "subtask", task_id) {
                Ok(i) => i,
                Err(e) => return Err(e),
            };
            t.subtasks.remove(i);
            t.touch_at(now);
            assert(t@.subtasks =~= before.subtasks.remove(i as int));
            let mut m = numbered("removed subtask ", index as u64, " from task ");
            m.append(text::to_decimal(task_id).as_str());
            Ok(m)
        },
    }
}

/// Changes a task's tags.
fn change_tags(action: TagCmd, t: &mut Task, now: Timestamp) -> (r: Result<String, String>)
    ensures
        match (Command::Tag { action }).changed(old(t)@, now) {
            Ok(m) => r is Ok && r->Ok_0@ == (Command::Tag { action }).report() && final(t)@ == m,
            Err(e) => r is Err && r->Err_0@ == e && final(t)@ == old(t)@,
        },
{
    let ghost before = t@;
    match action {
        TagCmd::Add { task_id, tag } => {
            if !t.add_tag(tag.as_str()) {
                return Err(numbered("task ", task_id, " already has tag or tag is empty"));
            }
            t.touch_at(now);
            Ok(numbered("tagged task ", task_id, ""))
        },
        TagCmd::Rm { task_id, tag } => {
            if !t.remove_tag(tag.as_str()) {
                let mut e = numbered("task ", task_id, " has no tag '");
                e.append(tag.as_str());
                e.append("'");
                proof {
                    if let Some(n) = model::tag_of(tag@) {
                        model::dropping_keeps_the_rest(before.tags, n);
                    }
                }
                return Err(e);
            }
            t.touch_at(now);
            Ok(numbered("untagged task ", task_id, ""))
        },
    }
}

/// Changes a task's notes.
fn change_notes(action: NoteCmd, t: &mut Task, now: Timestamp) -> (r: Result<String, String>)
    ensures
        match (Command::Note { action }).changed(old(t)@, now) {
            Ok(m) => r is Ok && r->Ok_0@ == (Command::Note { action }).report() && final(t)@ == m,
            Err(e) => r is Err && r->Err_0@ == e && final(t)@ == old(t)@,
        },
{
    let ghost before = t@;
    match action {
        NoteCmd::Add { task_id, text } => {
            if !t.add_note_at(text.as_str(), now) {
                return Err(numbered("note text for task ", task_id, " is empty"));
            }
            t.touch_at(now);
            Ok(numbered("noted task ", task_id, ""))
        },
        NoteCmd::Rm { task_id, index } => {
            let i: usize = match one_based(index, t.notes.len(), "note", task_id) {
                Ok(i) => i,
                Err(e) => return Err(e),
            };
            t.notes.remove(i);
            t.touch_at(now);
            assert(t@.notes =~= before.notes.remove(i as int));
            let mut m = numbered("removed note ", index as u64, " from task ");
            m.append(text::to_decimal(task_id).as_str());
            Ok(m)
        },
    }
}

/// The tasks that do not have an id.
pub open spec fn without_id(tasks: Seq<TaskModel>, id: u64) -> Seq<TaskModel>
    decreases tasks.len(),
{
    if tasks.len() == 0 {
        Seq::empty()
    } else if tasks.last().id == id {
        without_id(tasks.drop_last(), id)
    } else {
        without_id(tasks.drop_last(), id).push(tasks.last())
    }
}

/// Deletes every task that has an id. Returns whether there was one.
fn remove_id(tasks: &mut Vec<Task>, id: u64) -> (r: bool)
    ensures
        r == (app::find_id(model::task_models(old(tasks)@), id) is Some),
        model::task_models(final(tasks)@) == without_id(model::task_models(old(tasks)@), id),
{
    let ghost all = model::task_models(tasks@);
    let ghost mut seen: int = 0;
    let mut i: usize = 0;
    let mut removed = false;
    proof {
        assert(all.take(0) =~= Seq::<TaskModel>::empty());
        assert(model::task_models(tasks@) =~= without_id(all.take(0), id) + all.skip(0));
    }
    while i < tasks.len()
        invariant
            0 <= seen <= all.len(),
            i == without_id(all.take(seen), id).len(),
            model::task_models(tasks@) == without_id(all.take(seen), id) + all.skip(seen),
            removed == (app::find_id(all.take(seen), id) is Some),
        decreases tasks@.len() - i,
    {
        proof {
            assert(model::task_models(tasks@)[i as int] == all[seen]);
            assert(all.take(seen + 1).drop_last() =~= all.take(seen));
            assert(all.take(seen + 1).last() == all[seen]);
        }
        let ghost before = model::task_models(tasks@);
        if tasks[i].id == id {
            tasks.remove(i);
            removed = true;
            assert(model::task_models(tasks@) =~= before.remove(i as int));
        } else {
            i += 1;
        }
        proof {
            assert(model::task_models(tasks@) =~= without_id(all.take(seen + 1), id) + all.skip(
                seen + 1,
            ));
            seen = seen + 1;
        }
    }
    proof {
        assert(all.skip(seen).len() == 0);
        assert(all.take(seen) =~= all);
        assert(model::task_models(tasks@) =~= without_id(all, id));
    }
    removed
}

/// The tasks followed by the incoming ones, which get the next free ids in turn.
pub open spec fn imported(tasks: Seq<TaskModel>, incoming: Seq<TaskModel>) -> Seq<TaskModel> {
    tasks + Seq::new(
        incoming.len(),
        |i: int| TaskModel { id: (model::max_id(tasks) + 1 + i) as u64, ..incoming[i] },
    )
}

/// Whether there are ids for `n` more tasks.
pub open spec fn ids_fit(tasks: Seq<TaskModel>, n: nat) -> bool {
    model::max_id(tasks) + 1 + n <= u64::MAX
}

/// Whether there are ids for `n` more tasks.
pub fn ids_left(tasks: &Vec<Task>, n: usize) -> (r: bool)
    ensures
        r == ids_fit(model::task_models(tasks@), n as nat),
{
    let last: u64 = Task::last_id(tasks.as_slice());
    last < u64::MAX && n as u64 <= u64::MAX - last - 1
}

/// Appends tasks that were read from a file, with new ids. Returns what to say
/// once they are saved.
pub fn import(tasks: &mut Vec<Task>, incoming: Vec<Task>) -> (r: String)
    requires
        ids_fit(model::task_models(old(tasks)@), incoming@.len()),
    ensures
        model::task_models(final(tasks)@) == imported(
            model::task_models(old(tasks)@),
            model::task_models(incoming@),
        ),
        r@ == about("imported "@, incoming@.len(), " task(s)"@),
{
    let ghost old_tasks = model::task_models(tasks@);
    let ghost arrivals = model::task_models(incoming@);
    let ghost goal = imported(old_tasks, arrivals);
    let first: u64 = Task::next_id(tasks.as_slice());
    let n: usize = incoming.len();
    let mut i: usize = 0;
    assert(model::task_models(tasks@) =~= goal.take(old_tasks.len() as int));
    while i < n
        invariant
            i <= n,
            n == incoming@.len(),
            arrivals == model::task_models(incoming@),
            goal == imported(old_tasks, arrivals),
            first == model::max_id(old_tasks) + 1,
            first + n <= u64::MAX,
            model::task_models(tasks@) == goal.take(old_tasks.len() + i),
        decreases n - i,
    {
        let ghost before = model::task_models(tasks@);
        let mut t = incoming[i].clone();
        assert(t@ == arrivals[i as int]);
        t.id = first + i as u64;
        tasks.push(t);
        assert(model::task_models(tasks@) =~= before.push(t@));
        assert(t@ == goal[old_tasks.len() + i]);
        assert(goal.take(old_tasks.len() + i + 1) =~= goal.take(old_tasks.len() + i).push(
            goal[old_tasks.len() + i],
        ));
        i += 1;
    }
    assert(goal.take(old_tasks.len() + n) =~= goal);
    numbered("imported ", n as u64, " task(s)")
}

/// A check mark for a line of text.
pub open spec fn mark_of(done: bool) -> Seq<char> {
    if done {
        "x"@
    } else {
        " "@
    }
}

/// A check mark for a line of text.
fn mark(done: bool) -> (r: &'static str)
    ensures
        r@ == mark_of(done),
{
    if done {
        "x"
    } else {
        " "
    }
}

/// A task's line in the list.
pub open spec fn list_line(t: TaskModel, st: Status) -> Seq<char> {
    text::right_aligned(text::decimal(t.id as nat), 4) + " ["@ + mark_of(t.done) + "] "@
        + text::left_aligned(status_name(st), 8) + " "@ + t.title + progress_of(
        t.subtasks_done(),
        t.subtasks.len(),
    ) + tag_suffix_of(t.tags)
}

/// A task's line in the list.
pub fn listing(t: &Task, st: Status) -> (r: String)
    ensures
        r@ == list_line(t@, st),
{
    let (done, total) = t.progress();
    let mut r = text::pad_left(text::to_decimal(t.id).as_str(), 4);
    r.append(" [");
    r.append(mark(t.done));
    r.append("] ");
    r.append(text::pad_right(status_str(st), 8).as_str());
    r.append(" ");
    r.append(t.title.as_str());
    r.append(progress_text(done, total).as_str());
    r.append(tag_suffix(t).as_str());
    r
}

/// A note's line when its task is shown.
pub open spec fn note_line(i: int, n: model::NoteModel, now: u64) -> Seq<char> {
    "  "@ + text::right_aligned(text::decimal((i + 1) as nat), 2) + ". "@ + n.text + "  ("@ + ago_of(
        now,
        n.created,
    ) + ")"@
}

/// A subtask's line when its task is shown.
pub open spec fn subtask_line(i: int, s: SubTaskModel) -> Seq<char> {
    "  "@ + text::right_aligned(text::decimal((i + 1) as nat), 2) + ". ["@ + mark_of(s.done) + "] "@
        + s.title
}

/// The lines that show a task: what it is, its status, its tags and notes if it
/// has any, and its subtasks.
pub open spec fn show_lines(t: TaskModel, th: Thresholds, now: u64) -> Seq<Seq<char>> {
    let head = seq![
        about("#"@, t.id as nat, " ["@) + mark_of(t.done) + "] "@ + t.title,
        "status: "@ + status_name(t.status(th, now)),
    ];
    let tags = if t.tags.len() > 0 {
        seq!["tags:  "@ + text::trim(tag_suffix_of(t.tags))]
    } else {
        Seq::empty()
    };
    let notes = if t.notes.len() > 0 {
        seq!["notes:"@] + Seq::new(t.notes.len(), |i: int| note_line(i, t.notes[i], now))
    } else {
        Seq::empty()
    };
    let subtasks = if t.subtasks.len() > 0 {
        Seq::new(t.subtasks.len(), |i: int| subtask_line(i, t.subtasks[i]))
    } else {
        seq!["(no subtasks)"@]
    };
    head + tags + notes + subtasks
}

/// The lines that show a task.
pub fn show(t: &Task, cfg: &Config, now: Timestamp) -> (r: Vec<String>)
    ensures
        text::texts(r@) == show_lines(t@, cfg@.thresholds(), now),
{
    let mut r: Vec<String> = Vec::new();
    let mut line = numbered("#", t.id, " [");
    line.append(mark(t.done));
    line.append("] ");
    line.append(t.title.as_str());
    r.push(line);
    let mut line = "status: ".to_owned();
    line.append(status_str(status_of(t, cfg, now)));
    r.push(line);
    let ghost head = text::texts(r@);
    let ghost mut tags = Seq::<Seq<char>>::empty();
    if t.tags.len() > 0 {
        let mut line = "tags:  ".to_owned();
        line.append(text::trimmed(tag_suffix(t).as_str()).as_str());
        proof {
            tags = seq![line@];
        }
        r.push(line);
    }
    assert(text::texts(r@) =~= head + tags);
    let ghost mut notes = Seq::<Seq<char>>::empty();
    if t.notes.len() > 0 {
        r.push("notes:".to_owned());
        let ghost so_far = text::texts(r@);
        let mut i: usize = 0;
        assert(text::texts(r@) =~= so_far + Seq::new(0, |i: int| note_line(i, t@.notes[i], now)));
        while i < t.notes.len()
            invariant
                i <= t.notes@.len(),
                text::texts(r@) == so_far + Seq::new(
                    i as nat,
                    |i: int| note_line(i, t@.notes[i], now),
                ),
            decreases t.notes@.len() - i,
        {
            let n = &t.notes[i];
            assert(t@.notes[i as int] == n@);
            let mut line = "  ".to_owned();
            line.append(text::pad_left(text::to_decimal(i as u64 + 1).as_str(), 2).as_str());
            line.append(". ");
            line.append(n.text.as_str());
            line.append("  (");
            line.append(ago(now, n.created).as_str());
            line.append(")");
            let ghost before = text::texts(r@);
            r.push(line);
            assert(text::texts(r@) =~= before.push(line@));
            i += 1;
            assert(text::texts(r@) =~= so_far + Seq::new(
                i as nat,
                |i: int| note_line(i, t@.notes[i], now),
            ));
        }
        proof {
            notes = seq!["notes:"@] + Seq::new(
                t@.notes.len(),
                |i: int| note_line(i, t@.notes[i], now),
            );
            assert(text::texts(r@) =~= head + tags + notes);
        }
    }
    let ghost so_far = text::texts(r@);
    assert(so_far =~= head + tags + notes);
    if t.subtasks.len() == 0 {
        r.push("(no subtasks)".to_owned());
        assert(text::texts(r@) =~= so_far + seq!["(no subtasks)"@]);
    } else {
        let mut i: usize = 0;
        assert(text::texts(r@) =~= so_far + Seq::new(0, |i: int| subtask_line(i, t@.subtasks[i])));
        while i < t.subtasks.len()
            invariant
                i <= t.subtasks@.len(),
                text::texts(r@) == so_far + Seq::new(
                    i as nat,
                    |i: int| subtask_line(i, t@.subtasks[i]),
                ),
            decreases t.subtasks@.len() - i,
        {
            let s = &t.subtasks[i];
            assert(t@.subtasks[i as int] == s@);
            let mut line = "  ".to_owned();
            line.append(text::pad_left(text::to_decimal(i as u64 + 1).as_str(), 2).as_str());
            line.append(". [");
            line.append(mark(s.done));
            line.append("] ");
            line.append(s.title.as_str());
            let ghost before = text::texts(r@);
            r.push(line);
            assert(text::texts(r@) =~= before.push(line@));
            i += 1;
            assert(text::texts(r@) =~= so_far + Seq::new(
                i as nat,
                |i: int| subtask_line(i, t@.subtasks[i]),
            ));
        }
    }
    assert(head =~= seq![
        about("#"@, t@.id as nat, " ["@) + mark_of(t@.done) + "] "@ + t@.title,
        "status: "@ + status_name(t@.status(cfg@.thresholds(), now)),
    ]);
    assert(text::texts(r@) =~= show_lines(t@, cfg@.thresholds(), now));
    r
}

impl Command {
    /// The task that a command changes, if it changes one.
    fn target_id(&self) -> (r: Option<u64>)
        ensures
            r == self.target(),
    {
        match self {
            Command::Done { id } => Some(*id),
            Command::Edit { id, title: _ } => Some(*id),
            Command::Revive { id } => Some(*id),
            Command::Subtask { action } => match action {
                SubtaskCmd::Add { task_id, title: _ } => Some(*task_id),
                SubtaskCmd::Done { task_id, index: _ } => Some(*task_id),
                SubtaskCmd::Rm { task_id, index: _ } => Some(*task_id),
            },
            Command::Tag { action } => match action {
                TagCmd::Add { task_id, tag: _ } => Some(*task_id),
                TagCmd::Rm { task_id, tag: _ } => Some(*task_id),
            },
            Command::Note { action } => match action {
                NoteCmd::Add { task_id, text: _ } => Some(*task_id),
                NoteCmd::Rm { task_id, index: _ } => Some(*task_id),
            },
            _ => None,
        }
    }
}

/// Does what a command does to its task. Returns what to say once it is saved.
fn change_task(cmd: Command, t: &mut Task, now: Timestamp) -> (r: Result<String, String>)
    requires
        cmd.target() is Some,
    ensures
        match cmd.changed(old(t)@, now) {
            Ok(m) => r is Ok && r->Ok_0@ == cmd.report() && final(t)@ == m,
            Err(e) => r is Err && r->Err_0@ == e && final(t)@ == old(t)@,
        },
{
    match cmd {
        Command::Done { id } => {
            t.done = true;
            Ok(numbered("marked task ", id, " done"))
        },
        Command::Edit { id, title } => {
            if let Some(title) = title {
                t.title = title;
            }
            t.touch_at(now);
            Ok(numbered("edited task ", id, ""))
        },
        Command::Revive { id } => {
            t.touch_at(now);
            Ok(numbered("revived task ", id, ""))
        },
        Command::Subtask { action } => change_subtasks(action, t, now),
        Command::Tag { action } => change_tags(action, t, now),
        Command::Note { action } => change_notes(action, t, now),
        _ => Ok(String::new()),
    }
}

/// What is to be done, outside, for a command.
pub enum Outcome {
    /// Save the tasks, and print this line once they are saved.
    Save(String),
    /// Print these lines.
    Print(Vec<String>),
    /// Print tasks as JSON, each with its status.
    Json(Vec<TaskView>),
    /// Write the tasks to a file, and print this line once they are written.
    Export { path: String, message: String },
    /// Read a file, and import the tasks in it.
    Import { path: String },
}

/// A task to print: its position in the list, and what its status is called.
pub struct TaskView {
    pub at: usize,
    pub status: &'static str,
}

/// What an outcome holds.
pub enum OutcomeModel {
    Save(Seq<char>),
    Print(Seq<Seq<char>>),
    Json(Seq<(usize, Seq<char>)>),
    Export { path: Seq<char>, message: Seq<char> },
    Import { path: Seq<char> },
}

/// What the tasks to print hold.
pub open spec fn task_views(s: Seq<TaskView>) -> Seq<(usize, Seq<char>)> {
    Seq::new(s.len(), |i: int| (s[i].at, s[i].status@))
}

impl View for Outcome {
    type V = OutcomeModel;

    open spec fn view(&self) -> OutcomeModel {
        match self {
            Outcome::Save(m) => OutcomeModel::Save(m@),
            Outcome::Print(lines) => OutcomeModel::Print(text::texts(lines@)),
            Outcome::Json(list) => OutcomeModel::Json(task_views(list@)),
            Outcome::Export { path, message } => OutcomeModel::Export {
                path: path@,
                message: message@,
            },
            Outcome::Import { path } => OutcomeModel::Import { path: path@ },
        }
    }
}

/// What `list` prints.
pub open spec fn list_outcome(
    tasks: Seq<TaskModel>,
    th: Thresholds,
    filter: Option<StatusFilter>,
    tag: Option<Seq<char>>,
    all: bool,
    json: bool,
    now: u64,
) -> OutcomeModel {
    let view = selection(tasks, th, filter, tag, all, now);
    if json {
        OutcomeModel::Json(
            Seq::new(
                view.len(),
                |p: int| (view[p], status_name(tasks[view[p] as int].status(th, now))),
            ),
        )
    } else if view.len() == 0 {
        OutcomeModel::Print(seq!["(no tasks)"@])
    } else {
        OutcomeModel::Print(
            Seq::new(
                view.len(),
                |p: int|
                    list_line(tasks[view[p] as int], tasks[view[p] as int].status(th, now)),
            ),
        )
    }
}

impl Command {
    /// What a command makes of the tasks and what is to be done outside, or why
    /// it fails.
    pub open spec fn executed(self, tasks: Seq<TaskModel>, th: Thresholds, now: u64) -> Result<
        (Seq<TaskModel>, OutcomeModel),
        Seq<char>,
    > {
        match self {
            Command::Add { title, notes, subtasks, tags } => {
                let id = (model::max_id(tasks) + 1) as u64;
                let t = composed(
                    id,
                    title@,
                    text::texts(notes@),
                    text::texts(subtasks@),
                    text::texts(tags@),
                    now,
                );
                Ok((tasks.push(t), OutcomeModel::Save(about("added task "@, id as nat, ""@))))
            },
            Command::List { status, tag, all, json } => Ok(
                (tasks, list_outcome(tasks, th, status, text::opt_text(tag), all, json, now)),
            ),
            Command::Rm { id } => if app::find_id(tasks, id) is Some {
                Ok(
                    (
                        without_id(tasks, id),
                        OutcomeModel::Save(about("removed task "@, id as nat, ""@)),
                    ),
                )
            } else {
                Err(no_task(id))
            },
            Command::Export { path } => Ok(
                (
                    tasks,
                    OutcomeModel::Export {
                        path: path@,
                        message: about("exported "@, tasks.len(), " task(s) to "@) + path@,
                    },
                ),
            ),
            Command::Import { path } => Ok((tasks, OutcomeModel::Import { path: path@ })),
            Command::Show { id } => match app::find_id(tasks, id) {
                Some(i) => Ok((tasks, OutcomeModel::Print(show_lines(tasks[i as int], th, now)))),
                None => Err(no_task(id)),
            },
            _ => match self.target() {
                Some(id) => match app::find_id(tasks, id) {
                    Some(i) => match self.changed(tasks[i as int], now) {
                        Ok(t) => Ok(
                            (tasks.update(i as int, t), OutcomeModel::Save(self.report())),
                        ),
                        Err(e) => Err(e),
                    },
                    None => Err(no_task(id)),
                },
                None => Ok((tasks, OutcomeModel::Print(Seq::empty()))),
            },
        }
    }
}

/// The tasks that `list` shows, as lines or for JSON.
fn list(
    tasks: &Vec<Task>,
    cfg: &Config,
    filter: Option<StatusFilter>,
    tag: Option<String>,
    all: bool,
    json: bool,
    now: Timestamp,
) -> (r: Outcome)
    ensures
        r@ == list_outcome(
            model::task_models(tasks@),
            cfg@.thresholds(),
            filter,
            text::opt_text(tag),
            all,
            json,
            now,
        ),
{
    let ghost models = model::task_models(tasks@);
    let ghost th = cfg@.thresholds();
    let wanted: Option<&str> = match &tag {
        Some(t) => Some(t.as_str()),
        None => None,
    };
    let positions = select_positions(tasks.as_slice(), cfg, filter, wanted, all, now);
    let mut p: usize = 0;
    if json {
        let mut views: Vec<TaskView> = Vec::new();
        while p < positions.len()
            invariant
                p <= positions@.len(),
                models == model::task_models(tasks@),
                th == cfg@.thresholds(),
                forall|k: int|
                    0 <= k < positions@.len() ==> (#[trigger] positions@[k]) < tasks@.len(),
                views@.len() == p,
                forall|k: int|
                    0 <= k < p ==> (#[trigger] views@[k]).at == positions@[k] && views@[k].status@
                        == status_name(models[positions@[k] as int].status(th, now)),
            decreases positions@.len() - p,
        {
            let at: usize = positions[p];
            assert(models[at as int] == tasks@[at as int]@);
            views.push(TaskView { at, status: status_str(status_of(&tasks[at], cfg, now)) });
            p += 1;
        }
        assert(task_views(views@) =~= Seq::new(
            positions@.len(),
            |p: int|
                (
                    positions@[p],
                    status_name(models[positions@[p] as int].status(th, now)),
                ),
        ));
        return Outcome::Json(views);
    }
    let mut lines: Vec<String> = Vec::new();
    if positions.len() == 0 {
        lines.push("(no tasks)".to_owned());
        assert(text::texts(lines@) =~= seq!["(no tasks)"@]);
        return Outcome::Print(lines);
    }
    while p < positions.len()
        invariant
            p <= positions@.len(),
            models == model::task_models(tasks@),
            th == cfg@.thresholds(),
            forall|k: int| 0 <= k < positions@.len() ==> (#[trigger] positions@[k]) < tasks@.len(),
            lines@.len() == p,
            forall|k: int|
                0 <= k < p ==> (#[trigger] lines@[k])@ == list_line(
                    models[positions@[k] as int],
                    models[positions@[k] as int].status(th, now),
                ),
        decreases positions@.len() - p,
    {
        let t = &tasks[positions[p]];
        assert(models[positions@[p as int] as int] == t@);
        lines.push(listing(t, status_of(t, cfg, now)));
        p += 1;
    }
    assert(text::texts(lines@) =~= Seq::new(
        positions@.len(),
        |p: int|
            list_line(
                models[positions@[p] as int],
                models[positions@[p] as int].status(th, now),
            ),
    ));
    Outcome::Print(lines)
}

/// Nothing is deleted where no task has the id.
proof fn nothing_to_remove(tasks: Seq<TaskModel>, id: u64)
    requires
        app::find_id(tasks, id) is None,
    ensures
        without_id(tasks, id) == tasks,
    decreases tasks.len(),
{
    if tasks.len() > 0 {
        nothing_to_remove(tasks.drop_last(), id);
        assert(tasks.drop_last().push(tasks.last()) =~= tasks);
    } else {
        assert(without_id(tasks, id) =~= tasks);
    }
}

/// Runs a command on the tasks that were loaded. Showing the configuration or the
/// version does not touch them, and is done without loading any.
pub fn run(cmd: Command, tasks: &mut Vec<Task>, cfg: &Config, now: Timestamp) -> (r: Result<
    Outcome,
    String,
>)
    requires
        !(cmd is Config),
        !(cmd is Version),
        cmd is Add ==> model::max_id(model::task_models(old(tasks)@)) < u64::MAX,
    ensures
        match cmd.executed(model::task_models(old(tasks)@), cfg@.thresholds(), now) {
            Ok((after, outcome)) => {
                &&& r is Ok
                &&& r->Ok_0@ == outcome
                &&& model::task_models(final(tasks)@) == after
            },
            Err(e) => {
                &&& r is Err
                &&& r->Err_0@ == e
                &&& model::task_models(final(tasks)@) == model::task_models(old(tasks)@)
            },
        },
{
    let ghost before = model::task_models(tasks@);
    let target = cmd.target_id();
    match cmd {
        Command::Add { title, notes, subtasks, tags } => {
            let id: u64 = Task::next_id(tasks.as_slice());
            let t = compose(id, title, notes, subtasks, tags, now);
            tasks.push(t);
            assert(model::task_models(tasks@) =~= before.push(t@));
            Ok(Outcome::Save(numbered("added task ", id, "")))
        },
        Command::List { status, tag, all, json } => Ok(
            list(tasks, cfg, status, tag, all, json, now),
        ),
        Command::Rm { id } => {
            if !remove_id(tasks, id) {
                proof {
                    nothing_to_remove(before, id);
                }
                return Err(numbered("no task with id ", id, ""));
            }
            Ok(Outcome::Save(numbered("removed task ", id, "")))
        },
        Command::Export { path } => {
            let mut message = numbered("exported ", tasks.len() as u64, " task(s) to ");
            message.append(path.as_str());
            Ok(Outcome::Export { path, message })
        },
        Command::Import { path } => Ok(Outcome::Import { path }),
        Command::Show { id } => match app::find_index(tasks, id) {
            Some(i) => {
                assert(before[i as int] == tasks@[i as int]@);
                Ok(Outcome::Print(show(&tasks[i], cfg, now)))
            },
            None => Err(numbered("no task with id ", id, "")),
        },
        _ => {
            let id: u64 = match target {
                Some(id) => id,
                None => return Ok(Outcome::Print(Vec::new())),
            };
            let said = match find_mut(tasks, id) {
                Ok(t) => change_task(cmd, t, now),
                Err(e) => Err(e),
            };
            proof {
                if let Some(i) = app::find_id(before, id) {
                    assert(before[i as int] == old(tasks)@[i as int]@);
                    assert(model::task_models(tasks@) =~= before.update(
                        i as int,
                        tasks@[i as int]@,
                    ));
                    assert(before.update(i as int, before[i as int]) =~= before);
                }
            }
            match said {
                Ok(m) => Ok(Outcome::Save(m)),
                Err(e) => Err(e),
            }
        },
    }
}

/// What is to be done, outside, for the configuration command.
#[derive(Debug, PartialEq, Eq)]
pub enum ConfigOutcome {
    /// Write the configuration to its file, and print this line once it is written.
    Write(String),
    /// Print the configuration as JSON.
    Json,
    /// Print the heading, then the configuration as it is written to its file.
    Text,
}

/// Whether `r` is what the configuration command does.
pub open spec fn config_answer(json: bool, init: bool, path: Seq<char>, r: ConfigOutcome) -> bool {
    &&& init ==> (r matches ConfigOutcome::Write(m) && m@ == "wrote "@ + path)
    &&& !init && json ==> r == ConfigOutcome::Json
    &&& !init && !json ==> r == ConfigOutcome::Text
}

/// What the configuration command does: writing comes before showing, and JSON
/// before text. `path` is where the configuration is kept.
pub fn config_outcome(json: bool, init: bool, path: &str) -> (r: ConfigOutcome)
    ensures
        config_answer(json, init, path@, r),
{
    if init {
        let mut m = "wrote ".to_owned();
        m.append(path);
        ConfigOutcome::Write(m)
    } else if json {
        ConfigOutcome::Json
    } else {
        ConfigOutcome::Text
    }
}

/// The lines above the settings when the configuration is shown.
pub open spec fn heading_lines(config_path: Seq<char>, storage_path: Seq<char>) -> Seq<Seq<char>> {
    seq!["config_path  = "@ + config_path, "storage_path = "@ + storage_path, "---"@]
}

/// The lines above the settings when the configuration is shown, given how the two
/// paths are displayed.
pub fn config_heading(config_path: &str, storage_path: &str) -> (r: Vec<String>)
    ensures
        text::texts(r@) == heading_lines(config_path@, storage_path@),
{
    let mut r: Vec<String> = Vec::new();
    let mut line = "config_path  = ".to_owned();
    line.append(config_path);
    r.push(line);
    let mut line = "storage_path = ".to_owned();
    line.append(storage_path);
    r.push(line);
    r.push("---".to_owned());
    assert(text::texts(r@) =~= seq![
        "config_path  = "@ + config_path@,
        "storage_path = "@ + storage_path@,
        "---"@,
    ]);
    r
}

/// The list shows each task that passes the filters once and no other, the most
/// recently updated first, ties in the order of the task list.
pub proof fn list_is_filtered_and_recent_first(
    tasks: Seq<TaskModel>,
    th: Thresholds,
    filter: Option<StatusFilter>,
    tag: Option<Seq<char>>,
    all: bool,
    now: u64,
)
    requires
        tasks.len() <= usize::MAX,
    ensures
        ({
            let view = selection(tasks, th, filter, tag, all, now);
            &&& forall|p: int|
                0 <= p < view.len() ==> (#[trigger] view[p]) < tasks.len() && listed(
                    tasks[view[p] as int],
                    th,
                    filter,
                    tag,
                    all,
                    now,
                )
            &&& forall|i: int|
                0 <= i < tasks.len() && listed(#[trigger] tasks[i], th, filter, tag, all, now)
                    ==> exists|p: int| 0 <= p < view.len() && view[p] == i
            &&& forall|p: int, q: int|
                0 <= p < q < view.len() ==> {
                    let a = tasks[#[trigger] view[p] as int];
                    let b = tasks[#[trigger] view[q] as int];
                    a.last_updated > b.last_updated || (a.last_updated == b.last_updated && view[p]
                        < view[q])
                }
        }),
{
    let keep = Seq::new(tasks.len(), |i: int| listed(tasks[i], th, filter, tag, all, now));
    order::arrangement_arranges(recency(tasks), keep);
    let view = selection(tasks, th, filter, tag, all, now);
    assert forall|i: int|
        0 <= i < tasks.len() && listed(
            #[trigger] tasks[i],
            th,
            filter,
            tag,
            all,
            now,
        ) implies exists|p: int| 0 <= p < view.len() && view[p] == i by {
        assert(keep[i]);
    }
    assert forall|p: int, q: int| 0 <= p < q < view.len() implies {
        let a = tasks[#[trigger] view[p] as int];
        let b = tasks[#[trigger] view[q] as int];
        a.last_updated > b.last_updated || (a.last_updated == b.last_updated && view[p] < view[q])
    } by {
        assert(order::precedes(recency(tasks), view[p] as int, view[q] as int));
    }
}

/// Deleting removes every task with the id and keeps all others.
pub proof fn removal_is_exact(tasks: Seq<TaskModel>, id: u64, t: TaskModel)
    ensures
        without_id(tasks, id).contains(t) <==> tasks.contains(t) && t.id != id,
        without_id(tasks, id).len() <= tasks.len(),
        without_id(tasks, id).len() == tasks.len() <==> app::find_id(tasks, id) is None,
    decreases tasks.len(),
{
    let r = without_id(tasks, id);
    if tasks.len() > 0 {
        let init = tasks.drop_last();
        let rest = without_id(init, id);
        removal_is_exact(init, id, t);
        if tasks.contains(t) && t.id != id {
            let j = choose|j: int| 0 <= j < tasks.len() && tasks[j] == t;
            if j < tasks.len() - 1 {
                assert(init[j] == t);
                let k = choose|k: int| 0 <= k < rest.len() && rest[k] == t;
                assert(r[k] == t);
            } else {
                assert(r[r.len() - 1] == t);
            }
        }
        if r.contains(t) {
            let k = choose|k: int| 0 <= k < r.len() && r[k] == t;
            if k < rest.len() {
                assert(rest[k] == t);
                assert(init.contains(t));
                let j = choose|j: int| 0 <= j < init.len() && init[j] == t;
                assert(tasks[j] == t);
            } else {
                assert(tasks[tasks.len() - 1] == t);
            }
        }
    }
}

/// Importing keeps the tasks that were there, and gives each task that comes in an
/// id that nothing else has.
pub proof fn imported_ids_are_fresh(tasks: Seq<TaskModel>, incoming: Seq<TaskModel>, i: int, j: int)
    requires
        ids_fit(tasks, incoming.len()),
        0 <= i < tasks.len() + incoming.len(),
        tasks.len() <= j < tasks.len() + incoming.len(),
        i != j,
    ensures
        imported(tasks, incoming).take(tasks.len() as int) == tasks,
        imported(tasks, incoming)[i].id != imported(tasks, incoming)[j].id,
        imported(tasks, incoming)[j] == (TaskModel {
            id: imported(tasks, incoming)[j].id,
            ..incoming[j - tasks.len()]
        }),
{
    assert(imported(tasks, incoming).take(tasks.len() as int) =~= tasks);
    if i < tasks.len() {
        model::next_id_is_unused(tasks, i);
        assert(imported(tasks, incoming)[i] == tasks[i]);
    }
}

/// A command that changes a task changes no other: not their contents, not their
/// order, and not the task's id.
pub proof fn commands_change_one_task(
    cmd: Command,
    tasks: Seq<TaskModel>,
    th: Thresholds,
    now: u64,
    i: int,
)
    requires
        cmd.target() is Some,
        cmd.executed(tasks, th, now) is Ok,
        tasks.len() <= usize::MAX,
        0 <= i < tasks.len(),
    ensures
        cmd.executed(tasks, th, now)->Ok_0.0.len() == tasks.len(),
        cmd.executed(tasks, th, now)->Ok_0.0[i].id == tasks[i].id,
        tasks[i].id != cmd.target()->0 ==> cmd.executed(tasks, th, now)->Ok_0.0[i] == tasks[i],
{
    app::found_task(tasks, cmd.target()->0);
}

/// Every command that changes a task makes it Hot again, but for marking it done,
/// which leaves its age alone.
pub proof fn changing_a_task_makes_it_hot(cmd: Command, t: TaskModel, th: Thresholds, now: u64)
    requires
        cmd.target() is Some,
        cmd.changed(t, now) is Ok,
        th.hot_window > 0,
    ensures
        !(cmd is Done) ==> cmd.changed(t, now)->Ok_0.status(th, now) == Status::Hot,
        cmd is Done ==> cmd.changed(t, now)->Ok_0.last_updated == t.last_updated,
{
}

/// Looking at tasks changes none of them.
pub proof fn looking_changes_nothing(cmd: Command, tasks: Seq<TaskModel>, th: Thresholds, now: u64)
    requires
        cmd is List || cmd is Show || cmd is Export,
        cmd.executed(tasks, th, now) is Ok,
    ensures
        cmd.executed(tasks, th, now)->Ok_0.0 == tasks,
        !(cmd.executed(tasks, th, now)->Ok_0.1 is Save),
{
}

/// Once done, a task is no longer listed by default.
pub proof fn done_tasks_leave_the_list(
    cmd: Command,
    t: TaskModel,
    th: Thresholds,
    tag: Option<Seq<char>>,
    now: u64,
    later: u64,
)
    requires
        cmd is Done,
    ensures
        cmd.changed(t, now) is Ok,
        !listed(cmd.changed(t, now)->Ok_0, th, None, tag, false, later),
{
}

/// Marking a task done twice is marking it once.
pub proof fn done_is_idempotent(cmd: Command, t: TaskModel, now: u64, later: u64)
    requires
        cmd is Done,
    ensures
        cmd.changed(cmd.changed(t, now)->Ok_0, later) == cmd.changed(t, now),
{
}

/// A task that was added is open, has an id that no other task has, and is listed
/// by default.
pub proof fn added_tasks_are_listed(
    cmd: Command,
    tasks: Seq<TaskModel>,
    th: Thresholds,
    now: u64,
    i: int,
)
    requires
        cmd is Add,
        model::max_id(tasks) < u64::MAX,
        th.hot_window > 0,
        0 <= i < tasks.len(),
    ensures
        cmd.executed(tasks, th, now) is Ok,
        ({
            let after = cmd.executed(tasks, th, now)->Ok_0.0;
            &&& after.len() == tasks.len() + 1
            &&& after[i] == tasks[i]
            &&& after.last().id != tasks[i].id
            &&& after.last().title == cmd->Add_title@
            &&& listed(after.last(), th, None, None, false, now)
        }),
{
    model::next_id_is_unused(tasks, i);
    if let Command::Add { title, notes, subtasks, tags } = cmd {
        let id = (model::max_id(tasks) + 1) as u64;
        let fresh = model::new_task(id, title@, now);
        let noted = noted_all(fresh, text::texts(notes@), now);
        noting_keeps_the_rest(fresh, text::texts(notes@), now);
        tagging_keeps_the_rest(
            TaskModel { subtasks: open_subtasks(text::texts(subtasks@)), ..noted },
            text::texts(tags@),
        );
    }
}

/// Noting changes nothing but the notes.
proof fn noting_keeps_the_rest(t: TaskModel, notes: Seq<Seq<char>>, now: u64)
    ensures
        noted_all(t, notes, now) == (TaskModel { notes: noted_all(t, notes, now).notes, ..t }),
    decreases notes.len(),
{
    if notes.len() > 0 {
        noting_keeps_the_rest(t, notes.drop_last(), now);
    }
}

/// Tagging changes nothing but the tags.
proof fn tagging_keeps_the_rest(t: TaskModel, tags: Seq<Seq<char>>)
    ensures
        tagged_all(t, tags) == (TaskModel { tags: tagged_all(t, tags).tags, ..t }),
    decreases tags.len(),
{
    if tags.len() > 0 {
        tagging_keeps_the_rest(t, tags.drop_last());
    }
}

/// Toggling a subtask twice brings it back to where it was.
pub proof fn toggling_twice_undoes(cmd: Command, t: TaskModel, now: u64)
    requires
        cmd matches Command::Subtask { action } && action is Done,
        cmd.changed(t, now) is Ok,
    ensures
        cmd.changed(cmd.changed(t, now)->Ok_0, now) == Ok::<TaskModel, Seq<char>>(t.touched(now)),
{
    let once = cmd.changed(t, now)->Ok_0;
    let twice = cmd.changed(once, now)->Ok_0;
    assert(twice.subtasks =~= t.subtasks);
}

} // verus!
