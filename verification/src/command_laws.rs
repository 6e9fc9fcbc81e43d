//! What the commands of the command line are for, whatever they are given.

use crate::app;
use crate::cli;
use crate::cli::{Command, ConfigOutcome, NoteCmd, OutcomeModel, StatusFilter, SubtaskCmd, TagCmd};
use crate::model;
use crate::model::{NoteModel, Status, SubTaskModel, TaskModel, Thresholds};
use crate::task_laws;
use crate::text;
use vstd::prelude::*;
use vstd::string::*;

verus! {

/// The list keeps to its filters, each on its own and both together. Every task in
/// it carries the tag asked for and is in the band asked for; without a band, it is
/// open and not dormant unless all are wanted. Every task like that is in it.
pub proof fn lists_keep_to_both_filters(
    tasks: Seq<TaskModel>,
    th: Thresholds,
    filter: Option<StatusFilter>,
    tag: Option<Seq<char>>,
    all: bool,
    now: u64,
    i: int,
)
    requires
        tasks.len() <= usize::MAX,
        0 <= i < tasks.len(),
    ensures
        ({
            let view = cli::selection(tasks, th, filter, tag, all, now);
            let st = tasks[i].status(th, now);
            let listed = exists|p: int| 0 <= p < view.len() && view[p] == i;
            let tagged = exists|k: int|
                0 <= k < tasks[i].tags.len() && tasks[i].tags[k] == text::lowercase(
                    text::trim(tag->0),
                );
            &&& listed && tag is Some ==> tagged && text::lowercase(text::trim(tag->0)).len() > 0
            &&& listed && filter == Some(StatusFilter::Hot) ==> st == Status::Hot
            &&& listed && filter == Some(StatusFilter::Decaying) ==> st == Status::Decaying
            &&& listed && filter == Some(StatusFilter::Dormant) ==> st == Status::Dormant
            &&& listed && filter == Some(StatusFilter::Bubbling) ==> st == Status::Bubbling
            &&& listed && filter is None && !all ==> !tasks[i].done && st != Status::Dormant
            &&& {
                &&& tag is Some ==> tagged && text::lowercase(text::trim(tag->0)).len() > 0
                &&& filter == Some(StatusFilter::Hot) ==> st == Status::Hot
                &&& filter == Some(StatusFilter::Decaying) ==> st == Status::Decaying
                &&& filter == Some(StatusFilter::Dormant) ==> st == Status::Dormant
                &&& filter == Some(StatusFilter::Bubbling) ==> st == Status::Bubbling
                &&& filter is Some || all || (!tasks[i].done && st != Status::Dormant)
            } ==> listed
        }),
{
    cli::list_is_filtered_and_recent_first(tasks, th, filter, tag, all, now);
    if tag is Some {
        task_laws::carrying_is_having_the_whole_tag(
            tasks[i],
            text::lowercase(text::trim(tag->0)),
        );
    }
}

/// The `list` command changes nothing and shows the tasks that the filters pick, in
/// their order: one line each, or one entry each with the status by name, or that
/// there are none.
pub proof fn lists_show_what_is_picked(
    tasks: Seq<TaskModel>,
    th: Thresholds,
    filter: Option<StatusFilter>,
    tag: Option<String>,
    all: bool,
    json: bool,
    now: u64,
    p: int,
)
    requires
        0 <= p,
    ensures
        ({
            let cmd = Command::List { status: filter, tag, all, json };
            let view = cli::selection(tasks, th, filter, text::opt_text(tag), all, now);
            let t = tasks[view[p] as int];
            let st = t.status(th, now);
            &&& cmd.executed(tasks, th, now) is Ok
            &&& cmd.executed(tasks, th, now)->Ok_0.0 == tasks
            &&& match cmd.executed(tasks, th, now)->Ok_0.1 {
                OutcomeModel::Json(entries) => {
                    &&& json
                    &&& entries.len() == view.len()
                    &&& p < view.len() ==> entries[p].0 == view[p] && entries[p].1 == (match st {
                        Status::Hot => "hot"@,
                        Status::Decaying => "decaying"@,
                        Status::Dormant => "dormant"@,
                        Status::Bubbling => "bubbling"@,
                    })
                },
                OutcomeModel::Print(lines) => {
                    &&& !json
                    &&& view.len() == 0 ==> lines == seq!["(no tasks)"@]
                    &&& view.len() > 0 ==> lines.len() == view.len()
                    &&& p < view.len() ==> lines[p] == text::right_aligned(
                        text::decimal(t.id as nat),
                        4,
                    ) + " ["@ + (if t.done {
                        "x"@
                    } else {
                        " "@
                    }) + "] "@ + text::left_aligned(
                        match st {
                            Status::Hot => "hot"@,
                            Status::Decaying => "decaying"@,
                            Status::Dormant => "dormant"@,
                            Status::Bubbling => "bubbling"@,
                        },
                        8,
                    ) + " "@ + t.title + (if t.subtasks.len() > 0 {
                        " ["@ + text::decimal(t.subtasks.filter(|x: SubTaskModel| x.done).len())
                            + "/"@ + text::decimal(t.subtasks.len()) + "]"@
                    } else {
                        Seq::empty()
                    }) + cli::tag_suffix_of(t.tags)
                },
                _ => false,
            }
        }),
{
    let view = cli::selection(tasks, th, filter, text::opt_text(tag), all, now);
    task_laws::progress_counts_what_is_done(tasks[view[p] as int].subtasks);
}

/// Tags are shown behind two spaces, each with a hash and one space between them.
pub proof fn tags_are_shown_with_hashes(first: Seq<char>, tags: Seq<Seq<char>>, tag: Seq<char>)
    ensures
        cli::tag_suffix_of(Seq::empty()) == Seq::<char>::empty(),
        cli::tag_suffix_of(seq![first]) == "  #"@ + first,
        tags.len() > 0 ==> cli::tag_suffix_of(tags + seq![tag]) == cli::tag_suffix_of(tags) + " #"@
            + tag,
{
    reveal_strlit("#");
    reveal_strlit(" ");
    reveal_strlit("  ");
    reveal_strlit("  #");
    reveal_strlit(" #");
    assert(cli::hashed(seq![first]) =~= seq!["#"@ + first]);
    assert(text::joined(seq!["#"@ + first], " "@) == "#"@ + first);
    assert(cli::tag_suffix_of(seq![first]) =~= "  #"@ + first);
    if tags.len() > 0 {
        let all = cli::hashed(tags + seq![tag]);
        assert(all.drop_last() =~= cli::hashed(tags));
        assert(all.last() =~= "#"@ + tag);
        assert(cli::tag_suffix_of(tags + seq![tag]) =~= cli::tag_suffix_of(tags) + " #"@ + tag);
    }
}

/// A task is shown by what it is, then by the status that it has at that time, which
/// is the one on its line in the list.
pub proof fn showing_reports_the_status(t: TaskModel, th: Thresholds, now: u64, secs: int)
    requires
        secs == (if now < t.last_updated {
            0
        } else {
            now - t.last_updated
        }),
    ensures
        ({
            let lines = cli::show_lines(t, th, now);
            let name = if secs < th.hot_window {
                "hot"@
            } else if secs < th.dormant_after {
                "decaying"@
            } else if secs < th.dormant_after + th.bubble_after {
                "dormant"@
            } else {
                "bubbling"@
            };
            &&& lines.len() >= 3
            &&& lines[0] == "#"@ + text::decimal(t.id as nat) + " ["@ + (if t.done {
                "x"@
            } else {
                " "@
            }) + "] "@ + t.title
            &&& lines[1] == "status: "@ + name
            &&& cli::status_name(t.status(th, now)) == name
        }),
{
    task_laws::status_goes_by_time_since_update(t, th, now, secs);
}

/// Below its status a task is shown with its tags, notes and subtasks, each in their
/// order, counted from one: notes with their age, subtasks with a mark if done, and a
/// remark if there are none.
pub proof fn showing_lists_the_parts(t: TaskModel, th: Thresholds, now: u64, i: int)
    requires
        0 <= i,
    ensures
        ({
            let lines = cli::show_lines(t, th, now);
            let notes_at = if t.tags.len() > 0 {
                3int
            } else {
                2
            };
            let subtasks_at = if t.notes.len() > 0 {
                notes_at + 1 + t.notes.len()
            } else {
                notes_at
            };
            &&& t.tags.len() > 0 ==> lines[2] == "tags:  "@ + text::trim(cli::tag_suffix_of(t.tags))
            &&& t.notes.len() > 0 ==> lines[notes_at] == "notes:"@
            &&& i < t.notes.len() ==> lines[notes_at + 1 + i] == "  "@ + text::right_aligned(
                text::decimal((i + 1) as nat),
                2,
            ) + ". "@ + t.notes[i].text + "  ("@ + cli::ago_of(now, t.notes[i].created) + ")"@
            &&& t.subtasks.len() == 0 ==> lines.len() == subtasks_at + 1 && lines[subtasks_at]
                == "(no subtasks)"@
            &&& t.subtasks.len() > 0 ==> lines.len() == subtasks_at + t.subtasks.len()
            &&& i < t.subtasks.len() ==> lines[subtasks_at + i] == "  "@ + text::right_aligned(
                text::decimal((i + 1) as nat),
                2,
            ) + ". ["@ + (if t.subtasks[i].done {
                "x"@
            } else {
                " "@
            }) + "] "@ + t.subtasks[i].title
        }),
{
}

/// How long ago something was is told in the largest unit of which it is at least
/// one, rounded down; below a minute, or in the future, it is just now.
pub proof fn ages_are_told_in_the_largest_unit(now: u64, before: u64, n: nat)
    requires
        n >= 1,
    ensures
        now - before < 60 ==> cli::ago_of(now, before) == "just now"@,
        60 * n <= now - before < 60 * (n + 1) && n < 60 ==> cli::ago_of(now, before)
            == text::decimal(n) + "m ago"@,
        3_600 * n <= now - before < 3_600 * (n + 1) && n < 24 ==> cli::ago_of(now, before)
            == text::decimal(n) + "h ago"@,
        86_400 * n <= now - before < 86_400 * (n + 1) && n < 7 ==> cli::ago_of(now, before)
            == text::decimal(n) + "d ago"@,
        604_800 * n <= now - before < 604_800 * (n + 1) ==> cli::ago_of(now, before)
            == text::decimal(n) + "w ago"@,
{
    reveal_strlit("");
    let secs = now - before;
    if secs >= 0 {
        assert(60 * n <= secs < 60 * (n + 1) ==> secs / 60 == n) by (nonlinear_arith);
        assert(3_600 * n <= secs < 3_600 * (n + 1) ==> secs / 3_600 == n) by (nonlinear_arith);
        assert(86_400 * n <= secs < 86_400 * (n + 1) ==> secs / 86_400 == n) by (nonlinear_arith);
        assert(604_800 * n <= secs < 604_800 * (n + 1) ==> secs / 604_800 == n)
            by (nonlinear_arith);
    }
    assert(""@ + text::decimal(n) =~= text::decimal(n));
}

/// The first task that has an id is the one found.
pub(crate) proof fn first_is_found(tasks: Seq<TaskModel>, id: u64, i: int)
    requires
        tasks.len() <= usize::MAX,
        0 <= i < tasks.len(),
        tasks[i].id == id,
        forall|j: int| 0 <= j < i ==> (#[trigger] tasks[j]).id != id,
    ensures
        app::find_id(tasks, id) == Some(i as usize),
    decreases tasks.len(),
{
    if i == tasks.len() - 1 {
        app::found_task(tasks.drop_last(), id);
        if let Some(k) = app::find_id(tasks.drop_last(), id) {
            assert(tasks[k as int].id == id);
        }
    } else {
        first_is_found(tasks.drop_last(), id, i);
    }
}

/// Text that reads alike.
proof fn plain(n: nat)
    ensures
        forall|s: Seq<char>| #[trigger] (s + text::decimal(n) + ""@) == s + text::decimal(n),
{
    reveal_strlit("");
    assert forall|s: Seq<char>| #[trigger] (s + text::decimal(n) + ""@) == s + text::decimal(n) by {
        assert(s + text::decimal(n) + ""@ =~= s + text::decimal(n));
    }
}

/// `done`, `edit` and `revive` act on the first task with the id, and change just
/// what they say: the mark, the title and the time, or the time.
pub proof fn marking_editing_and_reviving(
    tasks: Seq<TaskModel>,
    th: Thresholds,
    now: u64,
    id: u64,
    i: int,
    title: String,
)
    requires
        tasks.len() <= usize::MAX,
        0 <= i < tasks.len(),
        tasks[i].id == id,
        forall|j: int| 0 <= j < i ==> (#[trigger] tasks[j]).id != id,
    ensures
        (Command::Done { id }).executed(tasks, th, now) == Ok::<_, Seq<char>>(
            (
                tasks.update(i, TaskModel { done: true, ..tasks[i] }),
                OutcomeModel::Save("marked task "@ + text::decimal(id as nat) + " done"@),
            ),
        ),
        (Command::Edit { id, title: Some(title) }).executed(tasks, th, now) == Ok::<_, Seq<char>>(
            (
                tasks.update(i, TaskModel { title: title@, last_updated: now, ..tasks[i] }),
                OutcomeModel::Save("edited task "@ + text::decimal(id as nat)),
            ),
        ),
        (Command::Edit { id, title: None }).executed(tasks, th, now) == Ok::<_, Seq<char>>(
            (
                tasks.update(i, TaskModel { last_updated: now, ..tasks[i] }),
                OutcomeModel::Save("edited task "@ + text::decimal(id as nat)),
            ),
        ),
        (Command::Revive { id }).executed(tasks, th, now) == Ok::<_, Seq<char>>(
            (
                tasks.update(i, TaskModel { last_updated: now, ..tasks[i] }),
                OutcomeModel::Save("revived task "@ + text::decimal(id as nat)),
            ),
        ),
        (Command::Show { id }).executed(tasks, th, now) == Ok::<_, Seq<char>>(
            (tasks, OutcomeModel::Print(cli::show_lines(tasks[i], th, now))),
        ),
{
    first_is_found(tasks, id, i);
    plain(id as nat);
}

/// A command for a task that there is not fails and says which.
pub proof fn unknown_tasks_are_refused(
    cmd: Command,
    tasks: Seq<TaskModel>,
    th: Thresholds,
    now: u64,
    id: u64,
    text: String,
    title: Option<String>,
    index: usize,
)
    requires
        tasks.len() <= usize::MAX,
        forall|j: int| 0 <= j < tasks.len() ==> (#[trigger] tasks[j]).id != id,
        cmd == (Command::Done { id }) || cmd == (Command::Edit { id, title }) || cmd
            == (Command::Revive { id }) || cmd == (Command::Rm { id }) || cmd == (Command::Show {
            id,
        }) || cmd == (Command::Subtask { action: SubtaskCmd::Add { task_id: id, title: text } })
            || cmd == (Command::Subtask { action: SubtaskCmd::Done { task_id: id, index } }) || cmd
            == (Command::Subtask { action: SubtaskCmd::Rm { task_id: id, index } }) || cmd
            == (Command::Tag { action: TagCmd::Add { task_id: id, tag: text } }) || cmd
            == (Command::Tag { action: TagCmd::Rm { task_id: id, tag: text } }) || cmd
            == (Command::Note { action: NoteCmd::Add { task_id: id, text } }) || cmd
            == (Command::Note { action: NoteCmd::Rm { task_id: id, index } }),
    ensures
        cmd.executed(tasks, th, now) == Err::<(Seq<TaskModel>, OutcomeModel), Seq<char>>(
            "no task with id "@ + text::decimal(id as nat),
        ),
{
    app::found_task(tasks, id);
    plain(id as nat);
}

/// A subtask that is added goes behind the others, open. A subtask is toggled or
/// removed by its place, counted from one, and the others stay as they are; a place
/// that there is not is refused. The task is touched each time, and nothing else in
/// it changes.
pub proof fn subtask_commands_go_by_place(
    tasks: Seq<TaskModel>,
    th: Thresholds,
    now: u64,
    id: u64,
    i: int,
    title: String,
    index: usize,
)
    requires
        tasks.len() <= usize::MAX,
        0 <= i < tasks.len(),
        tasks[i].id == id,
        forall|j: int| 0 <= j < i ==> (#[trigger] tasks[j]).id != id,
    ensures
        ({
            let t = tasks[i];
            let k = index - 1;
            let there = 1 <= index <= t.subtasks.len();
            let add = Command::Subtask { action: SubtaskCmd::Add { task_id: id, title } };
            let toggle = Command::Subtask { action: SubtaskCmd::Done { task_id: id, index } };
            let rm = Command::Subtask { action: SubtaskCmd::Rm { task_id: id, index } };
            let refusal = "no subtask "@ + text::decimal(index as nat) + " on task "@
                + text::decimal(id as nat);
            &&& add.executed(tasks, th, now) == Ok::<_, Seq<char>>(
                (
                    tasks.update(
                        i,
                        TaskModel {
                            subtasks: t.subtasks + seq![
                                SubTaskModel { title: title@, done: false },
                            ],
                            last_updated: now,
                            ..t
                        },
                    ),
                    OutcomeModel::Save("added subtask to task "@ + text::decimal(id as nat)),
                ),
            )
            &&& there ==> toggle.executed(tasks, th, now) == Ok::<_, Seq<char>>(
                (
                    tasks.update(
                        i,
                        TaskModel {
                            subtasks: t.subtasks.update(
                                k,
                                SubTaskModel {
                                    title: t.subtasks[k].title,
                                    done: !t.subtasks[k].done,
                                },
                            ),
                            last_updated: now,
                            ..t
                        },
                    ),
                    OutcomeModel::Save(
                        "toggled subtask "@ + text::decimal(index as nat) + " on task "@
                            + text::decimal(id as nat),
                    ),
                ),
            )
            &&& there ==> rm.executed(tasks, th, now) == Ok::<_, Seq<char>>(
                (
                    tasks.update(
                        i,
                        TaskModel {
                            subtasks: t.subtasks.take(k) + t.subtasks.skip(k + 1),
                            last_updated: now,
                            ..t
                        },
                    ),
                    OutcomeModel::Save(
                        "removed subtask "@ + text::decimal(index as nat) + " from task "@
                            + text::decimal(id as nat),
                    ),
                ),
            )
            &&& !there ==> toggle.executed(tasks, th, now) == Err::<
                (Seq<TaskModel>, OutcomeModel),
                Seq<char>,
            >(refusal)
            &&& !there ==> rm.executed(tasks, th, now) == Err::<
                (Seq<TaskModel>, OutcomeModel),
                Seq<char>,
            >(refusal)
        }),
{
    first_is_found(tasks, id, i);
    plain(id as nat);
    let t = tasks[i];
    let k = index - 1;
    reveal_strlit("no ");
    reveal_strlit("subtask");
    reveal_strlit(" ");
    reveal_strlit("no subtask ");
    assert("no "@ + "subtask"@ + " "@ =~= "no subtask "@);
    assert(t.subtasks.push(SubTaskModel { title: title@, done: false }) =~= t.subtasks + seq![
        SubTaskModel { title: title@, done: false },
    ]);
    if 1 <= index <= t.subtasks.len() {
        assert(t.subtasks.remove(k) =~= t.subtasks.take(k) + t.subtasks.skip(k + 1));
    }
}

/// A tag is added, normalized, behind the others, unless it is there already or
/// blank, and removed if it is there. The task is touched, and nothing else in it
/// changes.
pub proof fn tag_commands_add_and_remove(
    tasks: Seq<TaskModel>,
    th: Thresholds,
    now: u64,
    id: u64,
    i: int,
    tag: String,
)
    requires
        tasks.len() <= usize::MAX,
        0 <= i < tasks.len(),
        tasks[i].id == id,
        forall|j: int| 0 <= j < i ==> (#[trigger] tasks[j]).id != id,
    ensures
        ({
            let t = tasks[i];
            let n = text::lowercase(text::trim(tag@));
            let there = n.len() > 0 && exists|k: int| 0 <= k < t.tags.len() && t.tags[k] == n;
            let add = Command::Tag { action: TagCmd::Add { task_id: id, tag } };
            let rm = Command::Tag { action: TagCmd::Rm { task_id: id, tag } };
            &&& n.len() > 0 && !there ==> add.executed(tasks, th, now) == Ok::<_, Seq<char>>(
                (
                    tasks.update(
                        i,
                        TaskModel { tags: t.tags + seq![n], last_updated: now, ..t },
                    ),
                    OutcomeModel::Save("tagged task "@ + text::decimal(id as nat)),
                ),
            )
            &&& n.len() == 0 || there ==> add.executed(tasks, th, now) == Err::<
                (Seq<TaskModel>, OutcomeModel),
                Seq<char>,
            >("task "@ + text::decimal(id as nat) + " already has tag or tag is empty"@)
            &&& there ==> rm.executed(tasks, th, now) == Ok::<_, Seq<char>>(
                (
                    tasks.update(
                        i,
                        TaskModel {
                            tags: t.tags.filter(|x: Seq<char>| x != n),
                            last_updated: now,
                            ..t
                        },
                    ),
                    OutcomeModel::Save("untagged task "@ + text::decimal(id as nat)),
                ),
            )
            &&& !there ==> rm.executed(tasks, th, now) == Err::<
                (Seq<TaskModel>, OutcomeModel),
                Seq<char>,
            >("task "@ + text::decimal(id as nat) + " has no tag '"@ + tag@ + "'"@)
        }),
{
    first_is_found(tasks, id, i);
    plain(id as nat);
    let t = tasks[i];
    let n = text::lowercase(text::trim(tag@));
    task_laws::carrying_is_having_the_whole_tag(t, n);
    task_laws::tags_go_to_the_end(t, n);
    task_laws::removed_tags_leave_the_others(t, n);
}

/// A note is added, trimmed and stamped, behind the others, unless it is blank, and
/// removed by its place, counted from one. The task is touched, and nothing else in
/// it changes.
pub proof fn note_commands_add_and_remove(
    tasks: Seq<TaskModel>,
    th: Thresholds,
    now: u64,
    id: u64,
    i: int,
    text: String,
    index: usize,
)
    requires
        tasks.len() <= usize::MAX,
        0 <= i < tasks.len(),
        tasks[i].id == id,
        forall|j: int| 0 <= j < i ==> (#[trigger] tasks[j]).id != id,
    ensures
        ({
            let t = tasks[i];
            let k = index - 1;
            let there = 1 <= index <= t.notes.len();
            let add = Command::Note { action: NoteCmd::Add { task_id: id, text } };
            let rm = Command::Note { action: NoteCmd::Rm { task_id: id, index } };
            &&& text::trim(text@).len() > 0 ==> add.executed(tasks, th, now) == Ok::<_, Seq<char>>(
                (
                    tasks.update(
                        i,
                        TaskModel {
                            notes: t.notes + seq![
                                NoteModel { text: text::trim(text@), created: now },
                            ],
                            last_updated: now,
                            ..t
                        },
                    ),
                    OutcomeModel::Save("noted task "@ + text::decimal(id as nat)),
                ),
            )
            &&& text::trim(text@).len() == 0 ==> add.executed(tasks, th, now) == Err::<
                (Seq<TaskModel>, OutcomeModel),
                Seq<char>,
            >("note text for task "@ + text::decimal(id as nat) + " is empty"@)
            &&& there ==> rm.executed(tasks, th, now) == Ok::<_, Seq<char>>(
                (
                    tasks.update(
                        i,
                        TaskModel {
                            notes: t.notes.take(k) + t.notes.skip(k + 1),
                            last_updated: now,
                            ..t
                        },
                    ),
                    OutcomeModel::Save(
                        "removed note "@ + text::decimal(index as nat) + " from task "@
                            + text::decimal(id as nat),
                    ),
                ),
            )
            &&& !there ==> rm.executed(tasks, th, now) == Err::<
                (Seq<TaskModel>, OutcomeModel),
                Seq<char>,
            >(
                "no note "@ + text::decimal(index as nat) + " on task "@ + text::decimal(
                    id as nat,
                ),
            )
        }),
{
    first_is_found(tasks, id, i);
    plain(id as nat);
    let t = tasks[i];
    let k = index - 1;
    reveal_strlit("no ");
    reveal_strlit("note");
    reveal_strlit(" ");
    reveal_strlit("no note ");
    assert("no "@ + "note"@ + " "@ =~= "no note "@);
    let note = NoteModel { text: text::trim(text@), created: now };
    assert(t.notes.push(note) =~= t.notes + seq![note]);
    if 1 <= index <= t.notes.len() {
        assert(t.notes.remove(k) =~= t.notes.take(k) + t.notes.skip(k + 1));
    }
}

/// `rm` takes away every task with the id and leaves the others in their order.
pub proof fn removing_is_filtering(tasks: Seq<TaskModel>, th: Thresholds, now: u64, id: u64, i: int)
    requires
        tasks.len() <= usize::MAX,
        0 <= i < tasks.len(),
        tasks[i].id == id,
    ensures
        (Command::Rm { id }).executed(tasks, th, now) == Ok::<_, Seq<char>>(
            (
                tasks.filter(|t: TaskModel| t.id != id),
                OutcomeModel::Save("removed task "@ + text::decimal(id as nat)),
            ),
        ),
{
    app::found_task(tasks, id);
    plain(id as nat);
    without_is_filtering(tasks, id);
}

/// The tasks without an id are all the others.
proof fn without_is_filtering(tasks: Seq<TaskModel>, id: u64)
    ensures
        cli::without_id(tasks, id) == tasks.filter(|t: TaskModel| t.id != id),
    decreases tasks.len(),
{
    reveal(Seq::filter);
    if tasks.len() > 0 {
        without_is_filtering(tasks.drop_last(), id);
    }
}

/// `export` names the file and counts all tasks, `import` names the file, and neither
/// changes a task.
pub proof fn exporting_and_importing_name_the_file(
    tasks: Seq<TaskModel>,
    th: Thresholds,
    now: u64,
    path: String,
)
    ensures
        (Command::Export { path }).executed(tasks, th, now) == Ok::<_, Seq<char>>(
            (
                tasks,
                OutcomeModel::Export {
                    path: path@,
                    message: "exported "@ + text::decimal(tasks.len()) + " task(s) to "@ + path@,
                },
            ),
        ),
        (Command::Import { path }).executed(tasks, th, now) == Ok::<_, Seq<char>>(
            (tasks, OutcomeModel::Import { path: path@ }),
        ),
{
}

/// Imported tasks go behind the others, in their order, numbered on from the greatest
/// id, and keep everything but their ids.
pub proof fn imports_are_numbered_on(
    tasks: Seq<TaskModel>,
    incoming: Seq<TaskModel>,
    top: int,
    k: int,
)
    requires
        cli::ids_fit(tasks, incoming.len()),
        0 <= k < incoming.len(),
        tasks.len() == 0 ==> top == 0,
        forall|j: int| 0 <= j < tasks.len() ==> (#[trigger] tasks[j]).id <= top,
        tasks.len() > 0 ==> exists|j: int| 0 <= j < tasks.len() && (#[trigger] tasks[j]).id == top,
    ensures
        cli::imported(tasks, incoming).len() == tasks.len() + incoming.len(),
        cli::imported(tasks, incoming).take(tasks.len() as int) == tasks,
        cli::imported(tasks, incoming)[tasks.len() + k] == (TaskModel {
            id: (top + 1 + k) as u64,
            ..incoming[k]
        }),
{
    let i = task_laws::greatest_id_is_some_tasks(tasks);
    assert(cli::imported(tasks, incoming).take(tasks.len() as int) =~= tasks);
    if tasks.len() > 0 {
        let j = choose|j: int| 0 <= j < tasks.len() && (#[trigger] tasks[j]).id == top;
        assert(tasks[j].id <= model::max_id(tasks));
        assert(tasks[i].id <= top);
    }
}

/// A task that is added goes behind the others with what was given for it: the title,
/// the notes that are not blank, trimmed, the subtasks, all open, and the tags, each
/// once. It is stamped with the time and numbered on from the greatest id.
pub proof fn added_tasks_hold_what_was_given(
    tasks: Seq<TaskModel>,
    th: Thresholds,
    now: u64,
    title: String,
    notes: Vec<String>,
    subtasks: Vec<String>,
    tags: Vec<String>,
    top: int,
    x: Seq<char>,
)
    requires
        top < u64::MAX,
        tasks.len() == 0 ==> top == 0,
        forall|j: int| 0 <= j < tasks.len() ==> (#[trigger] tasks[j]).id <= top,
        tasks.len() > 0 ==> exists|j: int| 0 <= j < tasks.len() && (#[trigger] tasks[j]).id == top,
    ensures
        ({
            let cmd = Command::Add { title, notes, subtasks, tags };
            let after = cmd.executed(tasks, th, now)->Ok_0.0;
            let t = after.last();
            &&& cmd.executed(tasks, th, now) is Ok
            &&& cmd.executed(tasks, th, now)->Ok_0.1 == OutcomeModel::Save(
                "added task "@ + text::decimal((top + 1) as nat),
            )
            &&& after.len() == tasks.len() + 1 && after.drop_last() == tasks
            &&& t.id == top + 1 && t.title == title@ && t.created == now && t.last_updated == now
            &&& !t.done
            &&& t.notes == text::texts(notes@).map_values(|x: Seq<char>| text::trim(x)).filter(
                |x: Seq<char>| x.len() > 0,
            ).map_values(|x: Seq<char>| NoteModel { text: x, created: now })
            &&& t.subtasks == text::texts(subtasks@).map_values(
                |x: Seq<char>| SubTaskModel { title: x, done: false },
            )
            &&& t.tags.no_duplicates()
            &&& t.tags.contains(x) <==> x.len() > 0 && exists|k: int|
                0 <= k < tags@.len() && text::lowercase(text::trim((#[trigger] tags@[k])@)) == x
        }),
{
    let i = task_laws::greatest_id_is_some_tasks(tasks);
    if tasks.len() > 0 {
        let j = choose|j: int| 0 <= j < tasks.len() && (#[trigger] tasks[j]).id == top;
        assert(tasks[j].id <= model::max_id(tasks));
        assert(tasks[i].id <= top);
    }
    assert(model::max_id(tasks) == top);
    let id = (top + 1) as u64;
    plain(id as nat);
    let cmd = Command::Add { title, notes, subtasks, tags };
    let after = cmd.executed(tasks, th, now)->Ok_0.0;
    assert(after.drop_last() =~= tasks);
    let fresh = model::new_task(id, title@, now);
    let ns = text::texts(notes@);
    let ts = text::texts(tags@);
    task_laws::notes_given_are_kept_in_order(fresh, ns, now);
    let noted = cli::noted_all(fresh, ns, now);
    let stepped = TaskModel { subtasks: cli::open_subtasks(text::texts(subtasks@)), ..noted };
    task_laws::tags_given_are_kept_in_order(stepped, ts, x, 0);
    let t = after.last();
    let texts = ns.map_values(|x: Seq<char>| text::trim(x)).filter(|x: Seq<char>| x.len() > 0);
    assert(t.notes =~= texts.map_values(|x: Seq<char>| NoteModel { text: x, created: now }));
    assert(t.subtasks =~= text::texts(subtasks@).map_values(
        |x: Seq<char>| SubTaskModel { title: x, done: false },
    ));
    if exists|k: int| 0 <= k < ts.len() && model::tag_of(#[trigger] ts[k]) == Some(x) {
        let k = choose|k: int| 0 <= k < ts.len() && model::tag_of(#[trigger] ts[k]) == Some(x);
        assert(text::lowercase(text::trim(tags@[k]@)) == x);
    }
    if x.len() > 0 && exists|k: int|
        0 <= k < tags@.len() && text::lowercase(text::trim((#[trigger] tags@[k])@)) == x {
        let k = choose|k: int|
            0 <= k < tags@.len() && text::lowercase(text::trim((#[trigger] tags@[k])@)) == x;
        assert(model::tag_of(ts[k]) == Some(x));
    }
}

/// The configuration is written if that is asked for, whatever else is; otherwise it is
/// shown, as JSON or below the two paths.
pub proof fn writing_comes_before_showing(
    path: Seq<char>,
    storage: Seq<char>,
    json: bool,
    r: ConfigOutcome,
)
    ensures
        cli::config_answer(json, true, path, r) ==> (r matches ConfigOutcome::Write(m) && m@
            == "wrote "@ + path),
        cli::config_answer(true, false, path, r) ==> r == ConfigOutcome::Json,
        cli::config_answer(false, false, path, r) ==> r == ConfigOutcome::Text,
        cli::heading_lines(path, storage).len() == 3,
        cli::heading_lines(path, storage)[0] == "config_path  = "@ + path,
        cli::heading_lines(path, storage)[1] == "storage_path = "@ + storage,
        cli::heading_lines(path, storage)[2] == "---"@,
{
}

/// There are ids for more tasks as long as the greatest one, numbered on, stays within
/// what an id can hold.
pub proof fn ids_fit_while_there_are_any(tasks: Seq<TaskModel>, n: nat, top: int)
    requires
        tasks.len() == 0 ==> top == 0,
        forall|j: int| 0 <= j < tasks.len() ==> (#[trigger] tasks[j]).id <= top,
        tasks.len() > 0 ==> exists|j: int| 0 <= j < tasks.len() && (#[trigger] tasks[j]).id == top,
    ensures
        cli::ids_fit(tasks, n) <==> top + 1 + n <= u64::MAX,
{
    let i = task_laws::greatest_id_is_some_tasks(tasks);
    if tasks.len() > 0 {
        let j = choose|j: int| 0 <= j < tasks.len() && (#[trigger] tasks[j]).id == top;
        assert(tasks[j].id <= model::max_id(tasks));
        assert(tasks[i].id <= top);
    }
}

} // verus!
