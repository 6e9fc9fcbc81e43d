//! What the operations of the interactive list are for, whatever they are given.

use crate::app;
use crate::app::{AppModel, Row, Section};
use crate::command_laws;
use crate::encode;
use crate::guarantees;
use crate::keys::{EffectModel, KeyCode};
use crate::model;
use crate::model::{NoteModel, Status, SubTaskModel, TaskModel, Thresholds};
use crate::task_laws;
use crate::text;
use crate::text_laws;
use vstd::prelude::*;
use vstd::string::*;

verus! {

/// Done tasks are shown under Done only; of the others, the dormant ones under Dormant
/// and all the rest under Active.
pub proof fn sections_go_by_done_and_dormant(t: TaskModel, th: Thresholds, now: u64)
    ensures
        Section::Done.shows(t, th, now) == t.done,
        Section::Dormant.shows(t, th, now) == (!t.done && t.status(th, now) == Status::Dormant),
        Section::Active.shows(t, th, now) == (!t.done && (t.status(th, now) == Status::Hot
            || t.status(th, now) == Status::Decaying || t.status(th, now) == Status::Bubbling)),
        app::priority(Status::Hot) < app::priority(Status::Bubbling),
        app::priority(Status::Bubbling) < app::priority(Status::Decaying),
        app::priority(Status::Decaying) < app::priority(Status::Dormant),
{
}

/// The section is judged by the settings that the board sees.
pub proof fn lists_go_by_the_boards_settings(s: AppModel, now: u64)
    ensures
        s.thresholds().hot_window == s.cfg.effective(s.board).hot_window.0,
        s.thresholds().dormant_after == s.cfg.effective(s.board).dormant_after.0,
        s.thresholds().bubble_after == s.cfg.effective(s.board).bubble_after.0,
        s.has_animation(now) <==> exists|p: int|
            0 <= p < s.visible(now).len() && {
                let st = s.tasks[#[trigger] s.visible(now)[p] as int].status(s.thresholds(), now);
                st == Status::Hot || st == Status::Bubbling
            },
{
}

/// A listed task is a row, followed, if it is expanded, by its subtasks in their order
/// and then its notes in theirs; the rows of the next task come after.
pub proof fn rows_unfold_task_by_task(
    tasks: Seq<TaskModel>,
    expanded: Set<u64>,
    shown: Seq<usize>,
    ti: usize,
    s: AppModel,
    now: u64,
)
    ensures
        app::flattened(tasks, expanded, Seq::empty()) == Seq::<Row>::empty(),
        !expanded.contains(tasks[ti as int].id) ==> app::flattened(
            tasks,
            expanded,
            shown.push(ti),
        ) == app::flattened(tasks, expanded, shown).push(Row::Task(ti)),
        expanded.contains(tasks[ti as int].id) ==> app::flattened(tasks, expanded, shown.push(ti))
            == app::flattened(tasks, expanded, shown).push(Row::Task(ti)) + Seq::new(
            tasks[ti as int].subtasks.len(),
            |k: int| Row::Sub(ti, k as usize),
        ) + Seq::new(tasks[ti as int].notes.len(), |k: int| Row::Note(ti, k as usize)),
        s.rows(now) == app::flattened(s.tasks, s.expanded, s.visible(now)),
        s.selected < s.rows(now).len() ==> s.selected_row(now) == Some(
            s.rows(now)[s.selected as int],
        ),
        s.selected >= s.rows(now).len() ==> s.selected_row(now) is None,
{
    assert(shown.push(ti).drop_last() =~= shown);
    let all = app::flattened(tasks, expanded, shown.push(ti));
    let rest = app::flattened(tasks, expanded, shown);
    if expanded.contains(tasks[ti as int].id) {
        assert(all =~= rest.push(Row::Task(ti)) + Seq::new(
            tasks[ti as int].subtasks.len(),
            |k: int| Row::Sub(ti, k as usize),
        ) + Seq::new(tasks[ti as int].notes.len(), |k: int| Row::Note(ti, k as usize)));
    } else {
        assert(all =~= rest.push(Row::Task(ti)));
    }
}

/// A search hits every listed task whose lowercased title or one of whose tags has the
/// trimmed, lowercased query as a part, wherever it stands in it: some row is found,
/// and none below this one.
pub proof fn searching_hits_parts(
    s: AppModel,
    now: u64,
    query: Seq<char>,
    q: int,
    ti: usize,
    k: int,
    a: Seq<char>,
    m: Seq<char>,
    b: Seq<char>,
)
    requires
        app::indexable(s.tasks),
        s.rows(now).len() <= usize::MAX,
        0 <= q < s.rows(now).len(),
        s.rows(now)[q] == Row::Task(ti),
        m.len() > 0,
        m == text::lowercase(text::trim(query)),
        text::lowercase(s.tasks[ti as int].title) == a + m + b || (0 <= k
            < s.tasks[ti as int].tags.len() && s.tasks[ti as int].tags[k] == a + m + b),
    ensures
        s.find_match(query, now) is Some,
        s.find_match(query, now)->0 <= q,
{
    app::rows_point_at_tasks(s, now);
    assert(app::row_in_range(s.tasks, s.rows(now)[q]));
    let parts = text_laws::occurring_is_being_a_part(a, m, b, a);
    let titles = app::lowered_titles(s.tasks);
    guarantees::search_finds_the_first_match(s, query, now);
    assert(app::row_matches(s.tasks, titles, s.rows(now)[q], m));
}

/// What a search finds is a task that has the query as a part: of its lowercased
/// title, or of one of its tags. A query of white space finds nothing.
pub proof fn searching_finds_parts(s: AppModel, now: u64, query: Seq<char>) -> (r: (
    usize,
    int,
    Seq<char>,
    Seq<char>,
))
    requires
        app::indexable(s.tasks),
        s.rows(now).len() <= usize::MAX,
    ensures
        ({
            let m = text::lowercase(text::trim(query));
            let (ti, k, a, b) = r;
            &&& m.len() == 0 ==> s.find_match(query, now) is None
            &&& s.find_match(query, now) matches Some(q) ==> {
                &&& q < s.rows(now).len()
                &&& s.rows(now)[q as int] == Row::Task(ti)
                &&& text::lowercase(s.tasks[ti as int].title) == a + m + b || (0 <= k
                    < s.tasks[ti as int].tags.len() && s.tasks[ti as int].tags[k] == a + m + b)
            }
        }),
{
    let m = text::lowercase(text::trim(query));
    guarantees::search_finds_the_first_match(s, query, now);
    app::rows_point_at_tasks(s, now);
    match s.find_match(query, now) {
        Some(q) => {
            assert(app::row_in_range(s.tasks, s.rows(now)[q as int]));
            let ti = s.rows(now)[q as int]->Task_0;
            let t = s.tasks[ti as int];
            assert(app::lowered_titles(s.tasks)[ti as int] == text::lowercase(t.title));
            if text::occurs(text::lowercase(t.title), m) {
                let (a, b) = text_laws::occurring_is_being_a_part(m, m, m, text::lowercase(t.title));
                (ti, 0, a, b)
            } else {
                let k = choose|k: int|
                    0 <= k < t.tags.len() && text::occurs(#[trigger] t.tags[k], m);
                let (a, b) = text_laws::occurring_is_being_a_part(m, m, m, t.tags[k]);
                (ti, k, a, b)
            }
        },
        None => (0, 0, m, m),
    }
}

/// Where the task to follow is not listed, the highlight stays, or goes to the last
/// row if it was past it.
pub proof fn highlights_stay_without_a_task(s: AppModel, id: u64, now: u64)
    requires
        s.rows(now).len() <= usize::MAX,
        forall|q: int|
            0 <= q < s.rows(now).len() ==> !(#[trigger] s.rows(now)[q] matches Row::Task(ti)
                && s.tasks[ti as int].id == id),
    ensures
        s.selected < s.rows(now).len() ==> s.select_task(id, now).selected == s.selected,
        s.selected >= s.rows(now).len() > 0 ==> s.select_task(id, now).selected == s.rows(
            now,
        ).len() - 1,
        s.rows(now).len() == 0 ==> s.select_task(id, now).selected == 0,
{
    guarantees::row_is_found(s.tasks, s.rows(now), id);
    if let Some(k) = app::find_row(s.tasks, s.rows(now), id) {
        assert(s.rows(now)[k as int] is Task);
    }
}

/// The highlight follows to the first row that is the task.
pub proof fn highlights_follow_to_the_first_row(s: AppModel, id: u64, now: u64, q: int, ti: usize)
    requires
        s.rows(now).len() <= usize::MAX,
        0 <= q < s.rows(now).len(),
        s.rows(now)[q] == Row::Task(ti),
        s.tasks[ti as int].id == id,
        forall|j: int|
            0 <= j < q ==> !(#[trigger] s.rows(now)[j] matches Row::Task(tj) && s.tasks[tj as int].id
                == id),
    ensures
        s.select_task(id, now).selected == q,
{
    first_row_is_found(s.tasks, s.rows(now), id, q, ti);
}

/// The first row that is the task is the one found.
proof fn first_row_is_found(tasks: Seq<TaskModel>, rows: Seq<Row>, id: u64, q: int, ti: usize)
    requires
        rows.len() <= usize::MAX,
        0 <= q < rows.len(),
        rows[q] == Row::Task(ti),
        tasks[ti as int].id == id,
        forall|j: int|
            0 <= j < q ==> !(#[trigger] rows[j] matches Row::Task(tj) && tasks[tj as int].id == id),
    ensures
        app::find_row(tasks, rows, id) == Some(q as usize),
    decreases rows.len(),
{
    let init = rows.drop_last();
    if q == rows.len() - 1 {
        guarantees::row_is_found(tasks, init, id);
        if let Some(k) = app::find_row(tasks, init, id) {
            assert(rows[k as int] is Task);
        }
    } else {
        assert forall|j: int| 0 <= j < q implies !(#[trigger] init[j] matches Row::Task(tj)
            && tasks[tj as int].id == id) by {
            assert(rows[j] == init[j]);
        }
        first_row_is_found(tasks, init, id, q, ti);
    }
}

/// A new task goes behind the others, bare but for its title, numbered on from the
/// greatest id, and the highlight goes to the top.
pub proof fn new_tasks_go_to_the_end(s: AppModel, title: Seq<char>, now: u64, top: int)
    requires
        top < u64::MAX,
        s.tasks.len() == 0 ==> top == 0,
        forall|j: int| 0 <= j < s.tasks.len() ==> (#[trigger] s.tasks[j]).id <= top,
        s.tasks.len() > 0 ==> exists|j: int|
            0 <= j < s.tasks.len() && (#[trigger] s.tasks[j]).id == top,
    ensures
        ({
            let after = s.add_task(title, now);
            let t = TaskModel {
                id: (top + 1) as u64,
                title,
                notes: Seq::empty(),
                created: now,
                last_updated: now,
                done: false,
                subtasks: Seq::empty(),
                tags: Seq::empty(),
            };
            after == (AppModel { tasks: s.tasks + seq![t], selected: 0, ..s })
        }),
{
    let i = task_laws::greatest_id_is_some_tasks(s.tasks);
    if s.tasks.len() > 0 {
        let j = choose|j: int| 0 <= j < s.tasks.len() && (#[trigger] s.tasks[j]).id == top;
        assert(s.tasks[j].id <= model::max_id(s.tasks));
        assert(s.tasks[i].id <= top);
    }
    let t = model::new_task((top + 1) as u64, title, now);
    assert(s.tasks.push(t) =~= s.tasks + seq![t]);
}

/// Retitling a task changes its title and its time; retitling a subtask changes the
/// title of that subtask, by its place, and the task's time; rewording a note changes
/// the text of that note, by its place, and the task's time. Everything else in the
/// task, every other task, and all of the state but the highlight stay as they are. A
/// place that there is not changes nothing.
pub proof fn edits_change_what_was_picked(
    s: AppModel,
    now: u64,
    id: u64,
    i: int,
    k: usize,
    text: Seq<char>,
)
    requires
        s.tasks.len() <= usize::MAX,
        0 <= i < s.tasks.len(),
        s.tasks[i].id == id,
        forall|j: int| 0 <= j < i ==> (#[trigger] s.tasks[j]).id != id,
    ensures
        ({
            let t = s.tasks[i];
            let edited = s.apply_edit(id, text, now);
            let sub = s.apply_edit_sub(id, k, text, now);
            let note = s.apply_edit_note(id, k, text, now);
            &&& edited == (AppModel {
                tasks: s.tasks.update(i, TaskModel { title: text, last_updated: now, ..t }),
                selected: edited.selected,
                ..s
            })
            &&& k < t.subtasks.len() ==> sub == (AppModel {
                tasks: s.tasks.update(
                    i,
                    TaskModel {
                        subtasks: t.subtasks.update(
                            k as int,
                            SubTaskModel { title: text, done: t.subtasks[k as int].done },
                        ),
                        last_updated: now,
                        ..t
                    },
                ),
                selected: sub.selected,
                ..s
            })
            &&& k >= t.subtasks.len() ==> sub == (AppModel { selected: sub.selected, ..s })
            &&& k < t.notes.len() ==> note == (AppModel {
                tasks: s.tasks.update(
                    i,
                    TaskModel {
                        notes: t.notes.update(
                            k as int,
                            NoteModel { text, created: t.notes[k as int].created },
                        ),
                        last_updated: now,
                        ..t
                    },
                ),
                selected: note.selected,
                ..s
            })
            &&& k >= t.notes.len() ==> note == (AppModel { selected: note.selected, ..s })
        }),
{
    command_laws::first_is_found(s.tasks, id, i);
}

/// After retitling a subtask that there is, it has the new title and is done if it was;
/// every other subtask, their number, and the task's notes, tags, mark and creation are
/// as before.
pub proof fn retitled_subtasks_leave_the_others(
    s: AppModel,
    now: u64,
    id: u64,
    i: int,
    k: usize,
    title: Seq<char>,
    other: int,
)
    requires
        s.tasks.len() <= usize::MAX,
        0 <= i < s.tasks.len(),
        s.tasks[i].id == id,
        forall|j: int| 0 <= j < i ==> (#[trigger] s.tasks[j]).id != id,
        k < s.tasks[i].subtasks.len(),
        0 <= other < s.tasks[i].subtasks.len(),
        other != k,
    ensures
        ({
            let before = s.tasks[i];
            let after = s.apply_edit_sub(id, k, title, now).tasks[i];
            &&& after.subtasks.len() == before.subtasks.len()
            &&& after.subtasks[k as int].title == title
            &&& after.subtasks[k as int].done == before.subtasks[k as int].done
            &&& after.subtasks[other] == before.subtasks[other]
            &&& after.notes == before.notes && after.tags == before.tags
            &&& after.done == before.done && after.created == before.created
            &&& after.title == before.title && after.last_updated == now
        }),
{
    edits_change_what_was_picked(s, now, id, i, k, title);
}

/// A subtask that is added goes behind the task's others, open, and a note behind the
/// task's others, trimmed and stamped; a blank note adds none. The task is touched and
/// expanded, and nothing else changes but the highlight.
pub proof fn additions_go_to_the_end(
    s: AppModel,
    now: u64,
    id: u64,
    i: int,
    text: Seq<char>,
)
    requires
        s.tasks.len() <= usize::MAX,
        0 <= i < s.tasks.len(),
        s.tasks[i].id == id,
        forall|j: int| 0 <= j < i ==> (#[trigger] s.tasks[j]).id != id,
    ensures
        ({
            let t = s.tasks[i];
            let sub = s.add_subtask(id, text, now);
            let note = s.add_note(id, text, now);
            &&& sub == (AppModel {
                tasks: s.tasks.update(
                    i,
                    TaskModel {
                        subtasks: t.subtasks + seq![SubTaskModel { title: text, done: false }],
                        last_updated: now,
                        ..t
                    },
                ),
                expanded: s.expanded.insert(id),
                selected: sub.selected,
                ..s
            })
            &&& note == (AppModel {
                tasks: s.tasks.update(
                    i,
                    TaskModel {
                        notes: if text::trim(text).len() > 0 {
                            t.notes + seq![NoteModel { text: text::trim(text), created: now }]
                        } else {
                            t.notes
                        },
                        last_updated: now,
                        ..t
                    },
                ),
                expanded: s.expanded.insert(id),
                selected: note.selected,
                ..s
            })
        }),
{
    command_laws::first_is_found(s.tasks, id, i);
    let t = s.tasks[i];
    let sub = SubTaskModel { title: text, done: false };
    assert(t.subtasks.push(sub) =~= t.subtasks + seq![sub]);
    let note = NoteModel { text: text::trim(text), created: now };
    assert(t.notes.push(note) =~= t.notes + seq![note]);
}

/// Editing tags replaces them all by those that the words of the line stand for: each
/// word without its leading hashes, normalized; none twice. The task is touched, and
/// nothing else changes but the highlight.
pub proof fn edited_tags_are_the_words(
    s: AppModel,
    now: u64,
    id: u64,
    i: int,
    line: Seq<char>,
    x: Seq<char>,
)
    requires
        s.tasks.len() <= usize::MAX,
        0 <= i < s.tasks.len(),
        s.tasks[i].id == id,
        forall|j: int| 0 <= j < i ==> (#[trigger] s.tasks[j]).id != id,
    ensures
        ({
            let t = s.tasks[i];
            let after = s.apply_tags(id, line, now);
            let tags = after.tasks[i].tags;
            let words = text::words(line);
            &&& after == (AppModel {
                tasks: s.tasks.update(i, TaskModel { tags, last_updated: now, ..t }),
                selected: after.selected,
                ..s
            })
            &&& tags.no_duplicates()
            &&& tags.contains(x) <==> x.len() > 0 && exists|k: int|
                0 <= k < words.len() && text::lowercase(
                    text::trim(text::without_hashes(#[trigger] words[k])),
                ) == x
        }),
{
    command_laws::first_is_found(s.tasks, id, i);
    let t = s.tasks[i];
    let words = text::words(line);
    retagging_takes_the_words(t, words, x, 0);
    guarantees::typed_tags_are_distinct(t, words);
    if exists|k: int|
        0 <= k < words.len() && model::tag_of(text::without_hashes(#[trigger] words[k])) == Some(x) {
        let k = choose|k: int|
            0 <= k < words.len() && model::tag_of(text::without_hashes(#[trigger] words[k]))
                == Some(x);
        assert(text::lowercase(text::trim(text::without_hashes(words[k]))) == x);
    }
    if x.len() > 0 && exists|k: int|
        0 <= k < words.len() && text::lowercase(
            text::trim(text::without_hashes(#[trigger] words[k])),
        ) == x {
        let k = choose|k: int|
            0 <= k < words.len() && text::lowercase(
                text::trim(text::without_hashes(#[trigger] words[k])),
            ) == x;
        assert(model::tag_of(text::without_hashes(words[k])) == Some(x));
    }
}

/// The tags of some words are those that the words stand for, and the tags of the
/// first words stand first.
pub proof fn retagging_takes_the_words(t: TaskModel, words: Seq<Seq<char>>, x: Seq<char>, n: int)
    requires
        0 <= n <= words.len(),
    ensures
        ({
            let after = app::retagged(t, words);
            let part = app::retagged(t, words.take(n));
            &&& after.tags.contains(x) <==> exists|k: int|
                0 <= k < words.len() && model::tag_of(text::without_hashes(#[trigger] words[k]))
                    == Some(x)
            &&& part.tags.len() <= after.tags.len()
            &&& after.tags.take(part.tags.len() as int) == part.tags
            &&& after == (TaskModel { tags: after.tags, ..t })
        }),
    decreases words.len(),
{
    let after = app::retagged(t, words);
    if words.len() == 0 {
        assert(words.take(n) =~= words);
        assert(after.tags.take(after.tags.len() as int) =~= after.tags);
    } else {
        let init = words.drop_last();
        let m = if n < words.len() {
            n
        } else {
            n - 1
        };
        retagging_takes_the_words(t, init, x, m);
        let before = app::retagged(t, init);
        let tag = model::tag_of(text::without_hashes(words.last()));
        assert(before.tags =~= after.tags.take(before.tags.len() as int));
        if n == words.len() {
            assert(words.take(n) =~= words);
            assert(after.tags.take(after.tags.len() as int) =~= after.tags);
        } else {
            assert(words.take(n) =~= init.take(n));
            let part = app::retagged(t, words.take(n));
            assert(after.tags.take(part.tags.len() as int) =~= before.tags.take(
                part.tags.len() as int,
            ));
        }
        if exists|k: int|
            0 <= k < init.len() && model::tag_of(text::without_hashes(#[trigger] init[k])) == Some(x) {
            let k = choose|k: int|
                0 <= k < init.len() && model::tag_of(text::without_hashes(#[trigger] init[k]))
                    == Some(x);
            assert(words[k] == init[k]);
        }
        if exists|k: int|
            0 <= k < words.len() && model::tag_of(text::without_hashes(#[trigger] words[k])) == Some(
                x,
            ) {
            let k = choose|k: int|
                0 <= k < words.len() && model::tag_of(text::without_hashes(#[trigger] words[k]))
                    == Some(x);
            if k < init.len() {
                assert(init[k] == words[k]);
            }
        }
        if tag == Some(x) {
            assert(words[words.len() - 1] == words.last());
        }
        if before.tags.contains(x) {
            let k = choose|k: int| 0 <= k < before.tags.len() && before.tags[k] == x;
            assert(after.tags[k] == x);
        }
        if after.tags.contains(x) && !before.tags.contains(x) {
            let k = choose|k: int| 0 <= k < after.tags.len() && after.tags[k] == x;
            if k < before.tags.len() {
                assert(before.tags[k] == x);
            }
        }
        if tag == Some(x) && !before.tags.contains(x) {
            assert(after.tags[after.tags.len() - 1] == x);
        }
    }
}

/// An operation on a task that there is not changes no task.
pub proof fn unknown_tasks_stay_unchanged(
    s: AppModel,
    now: u64,
    id: u64,
    k: usize,
    text: Seq<char>,
)
    requires
        s.tasks.len() <= usize::MAX,
        forall|j: int| 0 <= j < s.tasks.len() ==> (#[trigger] s.tasks[j]).id != id,
    ensures
        s.apply_edit(id, text, now).tasks == s.tasks,
        s.apply_edit_sub(id, k, text, now).tasks == s.tasks,
        s.apply_edit_note(id, k, text, now).tasks == s.tasks,
        s.apply_tags(id, text, now).tasks == s.tasks,
        s.add_subtask(id, text, now).tasks == s.tasks,
        s.add_note(id, text, now).tasks == s.tasks,
{
    app::found_task(s.tasks, id);
}

/// Toggling flips the mark of the highlighted task, or of the highlighted subtask,
/// whose task is touched, and nothing else.
pub proof fn toggling_flips_the_highlighted(s: AppModel, now: u64, ti: usize, k: usize)
    ensures
        ({
            let after = s.toggle_selected(now);
            let t = s.tasks[ti as int];
            let sub = t.subtasks[k as int];
            &&& s.selected_row(now) == Some(Row::Task(ti)) ==> after == (AppModel {
                tasks: s.tasks.update(ti as int, TaskModel { done: !t.done, ..t }),
                ..s
            })
            &&& s.selected_row(now) == Some(Row::Sub(ti, k)) ==> after == (AppModel {
                tasks: s.tasks.update(
                    ti as int,
                    TaskModel {
                        subtasks: t.subtasks.update(
                            k as int,
                            SubTaskModel { title: sub.title, done: !sub.done },
                        ),
                        last_updated: now,
                        ..t
                    },
                ),
                ..s
            })
            &&& s.selected_row(now) == Some(Row::Note(ti, k)) ==> after == s
            &&& s.selected_row(now) is None ==> after == s
        }),
{
}

/// Expanding and collapsing, and reviving, concern the highlighted task, and do nothing
/// on any other row.
pub proof fn expanding_and_reviving_take_a_task(s: AppModel, now: u64, ti: usize, k: usize)
    ensures
        ({
            let t = s.tasks[ti as int];
            let opened = s.toggle_expand(now);
            let revived = s.revive_selected(now);
            let other = s.selected_row(now) is None || s.selected_row(now) == Some(Row::Sub(ti, k))
                || s.selected_row(now) == Some(Row::Note(ti, k));
            &&& s.selected_row(now) == Some(Row::Task(ti)) && !s.expanded.contains(t.id) ==> opened
                == (AppModel { expanded: s.expanded.insert(t.id), ..s })
            &&& s.selected_row(now) == Some(Row::Task(ti)) && s.expanded.contains(t.id) ==> opened
                == (AppModel { expanded: s.expanded.remove(t.id), ..s })
            &&& s.selected_row(now) == Some(Row::Task(ti)) ==> revived == (AppModel {
                tasks: s.tasks.update(
                    ti as int,
                    TaskModel { done: false, last_updated: now, ..t },
                ),
                selected: revived.selected,
                ..s
            })
            &&& other ==> opened == s && revived == s
        }),
{
}

/// Deleting takes away the highlighted task, or the highlighted subtask or note, whose
/// task is touched. Nothing else changes but the highlight and, with a task, whether
/// it is expanded.
pub proof fn deleting_takes_the_highlighted(s: AppModel, now: u64, ti: usize, k: usize)
    requires
        app::indexable(s.tasks),
        s.remove_selected(now).rows(now).len() <= usize::MAX,
    ensures
        ({
            let after = s.remove_selected(now);
            let t = s.tasks[ti as int];
            &&& s.selected_row(now) == Some(Row::Task(ti)) ==> after == (AppModel {
                tasks: s.tasks.take(ti as int) + s.tasks.skip(ti + 1),
                expanded: s.expanded.remove(t.id),
                selected: after.selected,
                ..s
            })
            &&& s.selected_row(now) == Some(Row::Sub(ti, k)) ==> after == (AppModel {
                tasks: s.tasks.update(
                    ti as int,
                    TaskModel {
                        subtasks: t.subtasks.take(k as int) + t.subtasks.skip(k + 1),
                        last_updated: now,
                        ..t
                    },
                ),
                selected: after.selected,
                ..s
            })
            &&& s.selected_row(now) == Some(Row::Note(ti, k)) ==> after == (AppModel {
                tasks: s.tasks.update(
                    ti as int,
                    TaskModel {
                        notes: t.notes.take(k as int) + t.notes.skip(k + 1),
                        last_updated: now,
                        ..t
                    },
                ),
                selected: after.selected,
                ..s
            })
            &&& s.selected_row(now) is None ==> after == s
            &&& s.selected_row(now) is Some && s.selected < after.rows(now).len()
                ==> after.selected == s.selected
            &&& s.selected_row(now) is Some && 0 < after.rows(now).len() <= s.selected
                ==> after.selected == after.rows(now).len() - 1
        }),
{
    app::rows_point_at_tasks(s, now);
    let after = s.remove_selected(now);
    let without = s.without_selected(now);
    assert(after.rows(now) == without.rows(now));
    if s.selected_row(now) is Some {
        assert(app::row_in_range(s.tasks, s.rows(now)[s.selected as int]));
    }
    let t = s.tasks[ti as int];
    if s.selected_row(now) == Some(Row::Task(ti)) {
        assert(s.tasks.remove(ti as int) =~= s.tasks.take(ti as int) + s.tasks.skip(ti + 1));
    }
    if s.selected_row(now) == Some(Row::Sub(ti, k)) {
        assert(t.subtasks.remove(k as int) =~= t.subtasks.take(k as int) + t.subtasks.skip(k + 1));
    }
    if s.selected_row(now) == Some(Row::Note(ti, k)) {
        assert(t.notes.remove(k as int) =~= t.notes.take(k as int) + t.notes.skip(k + 1));
    }
}

/// Yanking hands out the text of the highlighted row for the clipboard: the title of a
/// task or subtask, or the text of a note. It shows the end of it, and changes nothing
/// else.
pub proof fn yanking_copies_the_highlighted(s: AppModel, now: u64)
    ensures
        ({
            let (after, effect) = s.normal_key(KeyCode::Char('y'), now);
            let text = match s.selected_row(now) {
                Some(Row::Task(i)) => s.tasks[i as int].title,
                Some(Row::Sub(i, j)) => s.tasks[i as int].subtasks[j as int].title,
                Some(Row::Note(i, j)) => s.tasks[i as int].notes[j as int].text,
                None => Seq::empty(),
            };
            let some = s.selected_row(now) is Some;
            &&& after == (AppModel { status: after.status, g_pending: false, ..s })
            &&& some ==> effect == EffectModel::Copy(encode::clipboard_of(text))
            &&& some && text.len() <= 40 ==> after.status == Some("yanked: "@ + text)
            &&& some && text.len() > 40 ==> after.status == Some(
                "yanked: "@ + text.skip(text.len() - 40),
            )
            &&& !some ==> effect == EffectModel::Nothing && after.status is None
        }),
{
    let u = AppModel { status: None, g_pending: false, ..s };
    assert(u.rows(now) == s.rows(now));
}

} // verus!
