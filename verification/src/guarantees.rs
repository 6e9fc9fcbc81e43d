//! What holds of the interactive list as a whole, whatever it is given.

use crate::app;
use crate::app::{AppModel, ModeModel, Row, Section};
use crate::keys;
use crate::keys::{EffectModel, KeyCode};
use crate::model;
use crate::model::{Status, TaskModel, Thresholds};
use crate::order;
use crate::text;
use vstd::prelude::*;

verus! {

/// Every task is in exactly one of the three sections.
pub proof fn sections_partition_tasks(t: TaskModel, th: Thresholds, now: u64)
    ensures
        Section::Done.shows(t, th, now) <==> t.done,
        Section::Active.shows(t, th, now) || Section::Dormant.shows(t, th, now)
            || Section::Done.shows(t, th, now),
        !(Section::Active.shows(t, th, now) && Section::Dormant.shows(t, th, now)),
        !(Section::Active.shows(t, th, now) && Section::Done.shows(t, th, now)),
        !(Section::Dormant.shows(t, th, now) && Section::Done.shows(t, th, now)),
{
}

/// Tab goes round the sections, and shows each from its top.
pub proof fn tab_cycles_the_sections(s: AppModel, now: u64)
    ensures
        s.normal_key(KeyCode::Tab, now).0.view == s.view.following(),
        s.normal_key(KeyCode::Tab, now).0.selected == 0,
        s.view.following() != s.view,
        s.view.following().following() != s.view,
        s.view.following().following().following() == s.view,
{
}

/// The list holds each task of the section once and no other. Hot and Bubbling
/// tasks come before the rest, recently updated ones first within a band, and ties
/// in the order of the task list.
pub proof fn list_is_the_section_in_order(s: AppModel, now: u64)
    requires
        s.tasks.len() <= usize::MAX,
    ensures
        ({
            let listed = s.visible(now);
            let th = s.thresholds();
            &&& forall|p: int|
                0 <= p < listed.len() ==> (#[trigger] listed[p]) < s.tasks.len() && s.view.shows(
                    s.tasks[listed[p] as int],
                    th,
                    now,
                )
            &&& forall|i: int|
                0 <= i < s.tasks.len() && s.view.shows(#[trigger] s.tasks[i], th, now) ==> exists|
                    p: int,
                | 0 <= p < listed.len() && listed[p] == i
            &&& forall|p: int, q: int|
                0 <= p < q < listed.len() ==> {
                    let a = s.tasks[#[trigger] listed[p] as int];
                    let b = s.tasks[#[trigger] listed[q] as int];
                    let ra = app::priority(a.status(th, now));
                    let rb = app::priority(b.status(th, now));
                    ||| ra < rb
                    ||| ra == rb && a.last_updated > b.last_updated
                    ||| ra == rb && a.last_updated == b.last_updated && listed[p] < listed[q]
                }
        }),
{
    let listed = s.visible(now);
    let keys = s.sort_keys(now);
    order::arrangement_arranges(keys, s.shown(now));
    assert forall|i: int|
        0 <= i < s.tasks.len() && s.view.shows(
            #[trigger] s.tasks[i],
            s.thresholds(),
            now,
        ) implies exists|p: int| 0 <= p < listed.len() && listed[p] == i by {
        assert(s.shown(now)[i]);
    }
    assert forall|p: int, q: int| 0 <= p < q < listed.len() implies {
        let a = s.tasks[#[trigger] listed[p] as int];
        let b = s.tasks[#[trigger] listed[q] as int];
        let ra = app::priority(a.status(s.thresholds(), now));
        let rb = app::priority(b.status(s.thresholds(), now));
        ||| ra < rb
        ||| ra == rb && a.last_updated > b.last_updated
        ||| ra == rb && a.last_updated == b.last_updated && listed[p] < listed[q]
    } by {
        assert(order::precedes(keys, listed[p] as int, listed[q] as int));
    }
}

/// Each listed task has a row.
proof fn tasks_have_rows(tasks: Seq<TaskModel>, expanded: Set<u64>, shown: Seq<usize>, p: int) -> (q:
    int)
    requires
        0 <= p < shown.len(),
    ensures
        0 <= q < app::flattened(tasks, expanded, shown).len(),
        app::flattened(tasks, expanded, shown)[q] == Row::Task(shown[p]),
    decreases shown.len(),
{
    let init = shown.drop_last();
    let rest = app::flattened(tasks, expanded, init);
    if p < init.len() {
        tasks_have_rows(tasks, expanded, init, p)
    } else {
        rest.len() as int
    }
}

/// The first row of a task with an id is found if there is one, and is one.
pub(crate) proof fn row_is_found(tasks: Seq<TaskModel>, rows: Seq<Row>, id: u64)
    requires
        rows.len() <= usize::MAX,
    ensures
        match app::find_row(tasks, rows, id) {
            Some(k) => {
                &&& k < rows.len()
                &&& rows[k as int] matches Row::Task(ti) && tasks[ti as int].id == id
            },
            None => forall|q: int|
                0 <= q < rows.len() ==> !(#[trigger] rows[q] matches Row::Task(ti)
                    && tasks[ti as int].id == id),
        },
    decreases rows.len(),
{
    if rows.len() > 0 {
        let init = rows.drop_last();
        row_is_found(tasks, init, id);
        if app::find_row(tasks, init, id) is None {
            assert forall|q: int| 0 <= q < rows.len() - 1 implies !(#[trigger] rows[q] matches Row::Task(
                ti,
            ) && tasks[ti as int].id == id) by {
                assert(rows[q] == init[q]);
            }
        }
    }
}

/// Following a task that the section shows highlights it, wherever it went.
pub proof fn selection_follows_a_listed_task(s: AppModel, i: int, now: u64)
    requires
        s.tasks.len() <= usize::MAX,
        s.rows(now).len() <= usize::MAX,
        0 <= i < s.tasks.len(),
        s.view.shows(s.tasks[i], s.thresholds(), now),
    ensures
        ({
            let after = s.select_task(s.tasks[i].id, now);
            &&& after == AppModel { selected: after.selected, ..s }
            &&& after.selected_task(now) is Some
            &&& after.tasks[after.selected_task(now)->0 as int].id == s.tasks[i].id
        }),
{
    let id = s.tasks[i].id;
    list_is_the_section_in_order(s, now);
    assert(s.view.shows(s.tasks[i], s.thresholds(), now));
    let p = choose|p: int| 0 <= p < s.visible(now).len() && s.visible(now)[p] == i;
    let q = tasks_have_rows(s.tasks, s.expanded, s.visible(now), p);
    assert(s.rows(now)[q] == Row::Task(i as usize));
    row_is_found(s.tasks, s.rows(now), id);
    let after = s.select_task(id, now);
    assert(after.rows(now) == s.rows(now));
}

/// Following a task keeps the highlight on a row, if there is any.
pub proof fn selection_stays_on_a_row(s: AppModel, id: u64, now: u64)
    requires
        s.rows(now).len() <= usize::MAX,
    ensures
        ({
            let after = s.select_task(id, now);
            after.rows(now).len() > 0 ==> after.selected_row(now) is Some
        }),
{
    row_is_found(s.tasks, s.rows(now), id);
    assert(s.select_task(id, now).rows(now) == s.rows(now));
}

/// Renaming an open task of the active section makes it Hot and keeps it
/// highlighted, though it moves up the list.
pub proof fn selection_follows_an_edit(s: AppModel, id: u64, title: Seq<char>, now: u64)
    requires
        s.tasks.len() <= usize::MAX,
        s.apply_edit(id, title, now).rows(now).len() <= usize::MAX,
        s.view == Section::Active,
        s.thresholds().hot_window > 0,
        app::find_id(s.tasks, id) is Some,
        !s.tasks[app::find_id(s.tasks, id)->0 as int].done,
    ensures
        ({
            let after = s.apply_edit(id, title, now);
            let t = after.tasks[app::find_id(s.tasks, id)->0 as int];
            &&& t.title == title
            &&& t.status(s.thresholds(), now) == Status::Hot
            &&& after.selected_task(now) is Some
            &&& after.tasks[after.selected_task(now)->0 as int].id == id
        }),
{
    app::found_task(s.tasks, id);
    let i = app::find_id(s.tasks, id)->0;
    let edited = s.with_task(i, TaskModel { title, ..s.tasks[i as int] }.touched(now));
    assert(s.apply_edit(id, title, now) == edited.select_task(id, now));
    assert(edited.select_task(id, now).rows(now) == edited.rows(now));
    assert(edited.tasks[i as int].id == id);
    selection_follows_a_listed_task(edited, i as int, now);
}

/// Adding a subtask to an open task of the active section makes it Hot, reveals
/// what was added, and highlights the task.
pub proof fn selection_follows_a_new_subtask(s: AppModel, id: u64, title: Seq<char>, now: u64)
    requires
        s.tasks.len() <= usize::MAX,
        s.add_subtask(id, title, now).rows(now).len() <= usize::MAX,
        s.view == Section::Active,
        s.thresholds().hot_window > 0,
        app::find_id(s.tasks, id) is Some,
        !s.tasks[app::find_id(s.tasks, id)->0 as int].done,
    ensures
        ({
            let after = s.add_subtask(id, title, now);
            let t = after.tasks[app::find_id(s.tasks, id)->0 as int];
            &&& t.subtasks.last() == (model::SubTaskModel { title, done: false })
            &&& after.expanded.contains(id)
            &&& t.status(s.thresholds(), now) == Status::Hot
            &&& after.selected_task(now) is Some
            &&& after.tasks[after.selected_task(now)->0 as int].id == id
        }),
{
    app::found_task(s.tasks, id);
    let i = app::find_id(s.tasks, id)->0;
    let t = s.tasks[i as int];
    let sub = model::SubTaskModel { title, done: false };
    let grown = s.with_task(
        i,
        TaskModel { subtasks: t.subtasks.push(sub), ..t }.touched(now),
    ).expand(id);
    assert(s.add_subtask(id, title, now) == grown.select_task(id, now));
    assert(grown.select_task(id, now).rows(now) == grown.rows(now));
    assert(grown.tasks[i as int].id == id);
    selection_follows_a_listed_task(grown, i as int, now);
}

/// Editing a task, a subtask or a note changes at most that task, and renaming a
/// subtask or a note leaves the task's title alone.
pub proof fn edits_change_one_task(
    s: AppModel,
    id: u64,
    k: usize,
    text: Seq<char>,
    now: u64,
    j: int,
)
    requires
        s.tasks.len() <= usize::MAX,
        0 <= j < s.tasks.len(),
    ensures
        ({
            let edited = s.apply_edit(id, text, now).tasks;
            let sub = s.apply_edit_sub(id, k, text, now).tasks;
            let note = s.apply_edit_note(id, k, text, now).tasks;
            let tags = s.apply_tags(id, text, now).tasks;
            &&& edited.len() == s.tasks.len()
            &&& sub.len() == s.tasks.len()
            &&& note.len() == s.tasks.len()
            &&& tags.len() == s.tasks.len()
            &&& s.tasks[j].id != id ==> edited[j] == s.tasks[j] && sub[j] == s.tasks[j] && note[j]
                == s.tasks[j] && tags[j] == s.tasks[j]
            &&& sub[j].title == s.tasks[j].title
            &&& note[j].title == s.tasks[j].title
            &&& tags[j].title == s.tasks[j].title
        }),
{
    app::found_task(s.tasks, id);
    if let Some(i) = app::find_id(s.tasks, id) {
        retagging_keeps_the_rest(s.tasks[i as int], text::words(text));
    }
}

/// Replacing the tags changes nothing else.
proof fn retagging_keeps_the_rest(t: TaskModel, words: Seq<Seq<char>>)
    ensures
        app::retagged(t, words) == (TaskModel { tags: app::retagged(t, words).tags, ..t }),
    decreases words.len(),
{
    if words.len() > 0 {
        retagging_keeps_the_rest(t, words.drop_last());
    }
}

/// Whatever tags are typed, the task ends up with distinct ones; without any words
/// it ends up with none.
pub proof fn typed_tags_are_distinct(t: TaskModel, words: Seq<Seq<char>>)
    ensures
        app::retagged(t, words).tags.no_duplicates(),
        words.len() == 0 ==> app::retagged(t, words).tags.len() == 0,
    decreases words.len(),
{
    if words.len() > 0 {
        typed_tags_are_distinct(t, words.drop_last());
        model::tags_stay_distinct(
            app::retagged(t, words.drop_last()),
            model::tag_of(text::without_hashes(words.last())),
        );
    }
}

/// A new task gets an id that no other task has, is Hot, and leaves the others as
/// they are.
pub proof fn new_tasks_are_told_apart(s: AppModel, title: Seq<char>, now: u64, j: int)
    requires
        s.has_free_id(),
        s.thresholds().hot_window > 0,
        0 <= j < s.tasks.len(),
    ensures
        ({
            let after = s.add_task(title, now);
            &&& after.tasks.len() == s.tasks.len() + 1
            &&& after.tasks[j] == s.tasks[j]
            &&& after.tasks.last().id != s.tasks[j].id
            &&& after.tasks.last().title == title
            &&& Section::Active.shows(after.tasks.last(), s.thresholds(), now)
        }),
{
    model::next_id_is_unused(s.tasks, j);
}

/// Reviving brings the highlighted task back to the active section, Hot, and
/// changes no other task.
pub proof fn revived_tasks_are_active(s: AppModel, now: u64, j: int)
    requires
        app::indexable(s.tasks),
        s.selected_task(now) is Some,
        s.thresholds().hot_window > 0,
        0 <= j < s.tasks.len(),
        j != s.selected_task(now)->0,
    ensures
        ({
            let after = s.revive_selected(now);
            let t = after.tasks[s.selected_task(now)->0 as int];
            &&& !t.done
            &&& t.status(s.thresholds(), now) == Status::Hot
            &&& Section::Active.shows(t, s.thresholds(), now)
            &&& after.tasks[j] == s.tasks[j]
        }),
{
    app::rows_point_at_tasks(s, now);
    assert(app::row_in_range(s.tasks, s.rows(now)[s.selected as int]));
}

/// Deleting keeps the highlight on a row, if any is left, and nothing highlighted
/// means nothing deleted.
pub proof fn removal_keeps_a_selection(s: AppModel, now: u64)
    ensures
        ({
            let after = s.remove_selected(now);
            &&& s.selected_row(now) is None ==> after == s
            &&& s.selected_row(now) is Some && 0 < after.rows(now).len() <= usize::MAX
                ==> after.selected_row(now) is Some
        }),
{
    let without = s.without_selected(now);
    let after = s.remove_selected(now);
    if s.selected_row(now) is Some {
        assert(after.rows(now) == without.rows(now));
    }
}

/// Deleting a subtask or a note leaves the task in place, and deleting a task
/// takes away just that one.
pub proof fn removal_takes_one_thing(s: AppModel, now: u64)
    requires
        app::indexable(s.tasks),
    ensures
        ({
            let after = s.remove_selected(now);
            match s.selected_row(now) {
                Some(Row::Task(ti)) => after.tasks == s.tasks.remove(ti as int) && after.tasks.len()
                    == s.tasks.len() - 1,
                Some(Row::Sub(ti, si)) => {
                    &&& after.tasks.len() == s.tasks.len()
                    &&& after.tasks[ti as int].subtasks == s.tasks[ti as int].subtasks.remove(
                        si as int,
                    )
                    &&& after.tasks[ti as int].title == s.tasks[ti as int].title
                    &&& after.tasks[ti as int].notes == s.tasks[ti as int].notes
                },
                Some(Row::Note(ti, ni)) => {
                    &&& after.tasks.len() == s.tasks.len()
                    &&& after.tasks[ti as int].notes == s.tasks[ti as int].notes.remove(ni as int)
                    &&& after.tasks[ti as int].title == s.tasks[ti as int].title
                    &&& after.tasks[ti as int].subtasks == s.tasks[ti as int].subtasks
                },
                None => after.tasks == s.tasks,
            }
        }),
{
    app::rows_point_at_tasks(s, now);
    if s.selected_row(now) is Some {
        assert(app::row_in_range(s.tasks, s.rows(now)[s.selected as int]));
    }
}

/// Space flips done on a task, leaving its age alone, or on a subtask, which makes
/// its task Hot. Notes have no done state: nothing changes and nothing is saved.
#[verifier::rlimit(40)]
pub proof fn toggling_depends_on_the_row(s: AppModel, now: u64)
    requires
        app::indexable(s.tasks),
        s.thresholds().hot_window > 0,
    ensures
        ({
            let after = s.toggle_selected(now);
            match s.selected_row(now) {
                Some(Row::Task(ti)) => {
                    &&& after.tasks[ti as int].done == !s.tasks[ti as int].done
                    &&& after.tasks[ti as int].last_updated == s.tasks[ti as int].last_updated
                },
                Some(Row::Sub(ti, si)) => {
                    &&& after.tasks[ti as int].subtasks[si as int].done
                        == !s.tasks[ti as int].subtasks[si as int].done
                    &&& after.tasks[ti as int].done == s.tasks[ti as int].done
                    &&& after.tasks[ti as int].status(s.thresholds(), now) == Status::Hot
                },
                _ => after == s && s.normal_key(KeyCode::Char(' '), now).1 == EffectModel::Nothing,
            }
        }),
{
    app::rows_point_at_tasks(s, now);
    let t = AppModel { status: None, g_pending: false, ..s };
    assert(t.rows(now) == s.rows(now));
    if s.selected_row(now) is Some {
        assert(app::row_in_range(s.tasks, s.rows(now)[s.selected as int]));
    }
}

/// Collapsing and expanding only other tasks changes no row of these.
proof fn rows_of_others(
    tasks: Seq<TaskModel>,
    a: Set<u64>,
    b: Set<u64>,
    shown: Seq<usize>,
    id: u64,
)
    requires
        forall|x: u64| x != id ==> (a.contains(x) <==> #[trigger] b.contains(x)),
        forall|p: int| 0 <= p < shown.len() ==> tasks[#[trigger] shown[p] as int].id != id,
    ensures
        app::flattened(tasks, a, shown) == app::flattened(tasks, b, shown),
    decreases shown.len(),
{
    if shown.len() > 0 {
        assert(shown[shown.len() - 1] == shown.last());
        rows_of_others(tasks, a, b, shown.drop_last(), id);
    }
}

/// The row of a task stays where it is when that task alone is expanded or
/// collapsed.
proof fn own_row_stays(
    tasks: Seq<TaskModel>,
    a: Set<u64>,
    b: Set<u64>,
    shown: Seq<usize>,
    ti: usize,
    q: int,
)
    requires
        forall|x: u64| x != tasks[ti as int].id ==> (a.contains(x) <==> #[trigger] b.contains(x)),
        forall|p: int|
            0 <= p < shown.len() && #[trigger] shown[p] != ti ==> tasks[shown[p] as int].id
                != tasks[ti as int].id,
        forall|p: int, r: int|
            0 <= p < r < shown.len() ==> #[trigger] shown[p] != #[trigger] shown[r],
        0 <= q < app::flattened(tasks, a, shown).len(),
        app::flattened(tasks, a, shown)[q] == Row::Task(ti),
    ensures
        q < app::flattened(tasks, b, shown).len(),
        app::flattened(tasks, b, shown)[q] == Row::Task(ti),
    decreases shown.len(),
{
    let init = shown.drop_last();
    let rest = app::flattened(tasks, a, init);
    let last = shown.last();
    if q < rest.len() {
        own_row_stays(tasks, a, b, init, ti, q);
    } else {
        let k = q - rest.len();
        let t = tasks[last as int];
        assert(app::block(tasks, a, last)[k] == Row::Task(ti));
        if k > t.subtasks.len() {
            assert(app::block(tasks, a, last)[k] is Note);
        } else if k > 0 {
            assert(app::block(tasks, a, last)[k] is Sub);
        }
        assert(last == ti);
        assert forall|p: int| 0 <= p < init.len() implies tasks[#[trigger] init[p] as int].id
            != tasks[ti as int].id by {
            assert(shown[p] != shown[shown.len() - 1]);
        }
        rows_of_others(tasks, a, b, init, tasks[ti as int].id);
    }
}

/// Expanding the highlighted task and collapsing it again changes nothing, as long
/// as no other task has its id.
pub proof fn expanding_twice_restores(s: AppModel, now: u64)
    requires
        app::indexable(s.tasks),
        s.selected_task(now) matches Some(ti) ==> forall|j: int|
            0 <= j < s.tasks.len() && j != ti ==> (#[trigger] s.tasks[j]).id
                != s.tasks[ti as int].id,
    ensures
        s.toggle_expand(now).toggle_expand(now) == s,
{
    if let Some(ti) = s.selected_task(now) {
        let once = s.toggle_expand(now);
        let shown = s.visible(now);
        assert(once.visible(now) == shown);
        list_is_the_section_in_order(s, now);
        own_row_stays(s.tasks, s.expanded, once.expanded, shown, ti, s.selected as int);
        assert(once.selected_task(now) == Some(ti));
        assert(once.toggle_expand(now).expanded =~= s.expanded);
    }
}

/// A search hit is a task row that matches, and no row above it does. A blank
/// query hits nothing.
pub proof fn search_finds_the_first_match(s: AppModel, query: Seq<char>, now: u64)
    requires
        s.rows(now).len() <= usize::MAX,
    ensures
        ({
            let q = text::lowercase(text::trim(query));
            let titles = app::lowered_titles(s.tasks);
            let rows = s.rows(now);
            match s.find_match(query, now) {
                Some(k) => {
                    &&& k < rows.len()
                    &&& app::row_matches(s.tasks, titles, rows[k as int], q)
                    &&& forall|j: int|
                        0 <= j < k ==> !app::row_matches(s.tasks, titles, #[trigger] rows[j], q)
                },
                None => q.len() == 0 || forall|j: int|
                    0 <= j < rows.len() ==> !app::row_matches(
                        s.tasks,
                        titles,
                        #[trigger] rows[j],
                        q,
                    ),
            }
        }),
        text::lowercase(text::trim(query)).len() == 0 ==> s.find_match(query, now) is None,
{
    first_match_is_first(
        s.tasks,
        app::lowered_titles(s.tasks),
        s.rows(now),
        text::lowercase(text::trim(query)),
    );
}

/// The first match is a match, and the first.
proof fn first_match_is_first(
    tasks: Seq<TaskModel>,
    titles: Seq<Seq<char>>,
    rows: Seq<Row>,
    q: Seq<char>,
)
    requires
        rows.len() <= usize::MAX,
    ensures
        match app::first_match(tasks, titles, rows, q) {
            Some(k) => {
                &&& k < rows.len()
                &&& app::row_matches(tasks, titles, rows[k as int], q)
                &&& forall|j: int|
                    0 <= j < k ==> !app::row_matches(tasks, titles, #[trigger] rows[j], q)
            },
            None => forall|j: int|
                0 <= j < rows.len() ==> !app::row_matches(tasks, titles, #[trigger] rows[j], q),
        },
    decreases rows.len(),
{
    if rows.len() > 0 {
        let init = rows.drop_last();
        first_match_is_first(tasks, titles, init, q);
        assert forall|j: int| 0 <= j < rows.len() - 1 implies rows[j] == #[trigger] init[j] by {}
        match app::first_match(tasks, titles, init, q) {
            Some(k) => {
                assert forall|j: int| 0 <= j < k implies !app::row_matches(
                    tasks,
                    titles,
                    #[trigger] rows[j],
                    q,
                ) by {
                    assert(rows[j] == init[j]);
                }
            },
            None => {
                assert forall|j: int| 0 <= j < rows.len() - 1 implies !app::row_matches(
                    tasks,
                    titles,
                    #[trigger] rows[j],
                    q,
                ) by {
                    assert(rows[j] == init[j]);
                }
            },
        }
    }
}

/// A lone `g` waits for a second, which jumps to the top; any other key ends the
/// wait.
pub proof fn gg_jumps_to_the_top(s: AppModel, code: KeyCode, now: u64)
    ensures
        !s.g_pending ==> {
            let once = s.normal_key(KeyCode::Char('g'), now).0;
            let twice = once.normal_key(KeyCode::Char('g'), now).0;
            &&& once.g_pending
            &&& once.selected == s.selected
            &&& twice.selected == 0
            &&& !twice.g_pending
        },
        code != KeyCode::Char('g') ==> !s.normal_key(code, now).0.g_pending,
{
}

/// The keys that move the highlight leave it on a row, if there is any, and `G`
/// on the last.
pub proof fn moving_stays_on_a_row(s: AppModel, code: KeyCode, now: u64)
    requires
        0 < s.rows(now).len() <= usize::MAX,
        code == KeyCode::Down || code == KeyCode::Up || code == KeyCode::Char('j') || code
            == KeyCode::Char('k') || code == KeyCode::Char('G'),
    ensures
        s.normal_key(code, now).0.selected_row(now) is Some,
        code == KeyCode::Char('G') ==> s.normal_key(code, now).0.selected == s.rows(now).len() - 1,
{
    let t = AppModel { status: None, g_pending: false, ..s };
    let after = s.normal_key(code, now).0;
    assert(t.rows(now) == s.rows(now));
    assert(after.rows(now) == s.rows(now));
}

/// Keys in the list save the tasks they change, and change no setting.
#[verifier::rlimit(40)]
proof fn list_keys_save(s: AppModel, code: KeyCode, now: u64)
    ensures
        s.normal_key(code, now).0.tasks != s.tasks ==> s.normal_key(code, now).1
            == EffectModel::SaveTasks,
        s.normal_key(code, now).0.cfg == s.cfg,
{
}

/// Submitting saves the tasks or the settings it changes.
proof fn submitting_saves(s: AppModel, now: u64)
    ensures
        s.submit(now).0.tasks != s.tasks ==> s.submit(now).1 == EffectModel::SaveTasks,
        s.submit(now).0.cfg != s.cfg ==> s.submit(now).1 == (EffectModel::SaveConfig {
            report: true,
        }),
{
}

/// Whatever a key does to the tasks or to the configuration is asked to be saved
/// at once, in every mode.
#[verifier::rlimit(40)]
pub proof fn changes_are_saved(s: AppModel, code: KeyCode, ctrl: bool, now: u64)
    ensures
        s.key(code, ctrl, now).0.tasks != s.tasks ==> s.key(code, ctrl, now).1
            == EffectModel::SaveTasks,
        s.key(code, ctrl, now).0.cfg != s.cfg ==> s.key(code, ctrl, now).1
            == (EffectModel::SaveConfig { report: true }),
{
    list_keys_save(s, code, now);
    submitting_saves(s, now);
    if code != KeyCode::Enter && code != KeyCode::Esc {
        typing_changes_the_line_only(s, code, ctrl, now);
    } else if code == KeyCode::Esc {
        cancelling_changes_nothing(s, ctrl, now);
    }
    assert(s.config_key(code).tasks == s.tasks && s.config_key(code).cfg == s.cfg);
    assert(s.boards_key(code).0.tasks == s.tasks && s.boards_key(code).0.cfg == s.cfg);
}

/// Only `q` and Esc in the list quit.
#[verifier::rlimit(40)]
pub proof fn only_the_list_quits(s: AppModel, code: KeyCode, ctrl: bool, now: u64)
    requires
        !s.quit,
    ensures
        s.key(code, ctrl, now).0.quit <==> s.mode is Normal && (code == KeyCode::Char('q') || code
            == KeyCode::Esc),
{
    if code != KeyCode::Enter && code != KeyCode::Esc {
        typing_changes_the_line_only(s, code, ctrl, now);
    } else if code == KeyCode::Esc {
        cancelling_changes_nothing(s, ctrl, now);
    } else {
        assert(!s.submit(now).0.quit);
        assert(!s.input_key(code, ctrl, now).0.quit);
    }
    assert(!s.config_key(code).quit);
    assert(!s.boards_key(code).0.quit);
}

/// Backspace undoes typing a character.
pub proof fn backspace_undoes_typing(s: AppModel, c: char, ctrl: bool)
    requires
        s.well_formed(),
        s.input.len() < usize::MAX,
    ensures
        s.typed(KeyCode::Char(c), false).typed(KeyCode::Backspace, ctrl) == s,
        s.typed(KeyCode::Char(c), false).input[s.cursor as int] == c,
        s.typed(KeyCode::Char(c), false).well_formed(),
{
    assert(s.input.insert(s.cursor as int, c).remove(s.cursor as int) =~= s.input);
}

/// Whatever the key and the mode, the cursor stays on the input line, and a
/// character typed without control goes in at the cursor, which moves past it.
pub proof fn cursor_stays_on_the_line(s: AppModel, code: KeyCode, ctrl: bool, now: u64)
    requires
        s.cursor <= s.input.len() < usize::MAX,
    ensures
        s.input_key(code, ctrl, now).0.cursor <= s.input_key(code, ctrl, now).0.input.len(),
        code matches KeyCode::Char(c) ==> !ctrl ==> {
            let after = s.input_key(code, ctrl, now).0;
            after.input == s.input.insert(s.cursor as int, c) && after.cursor == s.cursor + 1
        },
{
    if code == KeyCode::Enter {
        assert(s.submit(now).0.cursor <= s.submit(now).0.input.len());
    }
}

/// Until it is submitted, what is typed changes nothing but the input line, the
/// cursor and, while searching, the highlight.
pub proof fn typing_changes_the_line_only(s: AppModel, code: KeyCode, ctrl: bool, now: u64)
    requires
        code != KeyCode::Enter,
        code != KeyCode::Esc,
    ensures
        ({
            let (after, effect) = s.input_key(code, ctrl, now);
            &&& after == AppModel {
                input: after.input,
                cursor: after.cursor,
                selected: after.selected,
                ..s
            }
            &&& effect == EffectModel::Nothing
            &&& !(s.mode is Search) ==> after.selected == s.selected
        }),
{
}

/// Leaving the input line with Esc changes no task and no setting, and empties the
/// line.
pub proof fn cancelling_changes_nothing(s: AppModel, ctrl: bool, now: u64)
    ensures
        ({
            let after = s.input_key(KeyCode::Esc, ctrl, now).0;
            after == AppModel { input: Seq::empty(), cursor: 0, mode: after.mode, ..s }
        }),
{
}

/// Submitting a blank line changes no task, except that blank tags clear the tags.
pub proof fn blank_lines_change_no_task(s: AppModel, now: u64)
    requires
        text::trim(s.input).len() == 0,
        !(s.mode is EditTags),
    ensures
        s.submit(now).0.tasks == s.tasks,
        s.submit(now).1 != EffectModel::SaveTasks,
{
}

/// Deleting a board is asked about only where it is neither the active board nor
/// the only one.
pub proof fn deletion_is_guarded(s: AppModel, name: Seq<char>, listed: Seq<Seq<char>>)
    requires
        !(s.mode is ConfirmDeleteBoard),
    ensures
        s.guard_delete(name, listed).mode is ConfirmDeleteBoard ==> {
            &&& s.guard_delete(name, listed).mode == (ModeModel::ConfirmDeleteBoard { name })
            &&& name != s.board
            &&& s.board_names(listed).len() > 1
        },
        name == s.board || s.board_names(listed).len() <= 1 ==> s.guard_delete(
            name,
            listed,
        ).status is Some,
{
}

/// A board's file is removed only when that was asked about and answered `y`.
#[verifier::rlimit(40)]
pub proof fn deletion_is_confirmed(
    s: AppModel,
    code: KeyCode,
    ctrl: bool,
    now: u64,
    name: Seq<char>,
)
    requires
        s.key(code, ctrl, now).1 == EffectModel::RemoveBoard(name),
    ensures
        s.mode == (ModeModel::ConfirmDeleteBoard { name }),
        code == KeyCode::Char('y') || code == KeyCode::Char('Y'),
{
    assert(!(s.normal_key(code, now).1 is RemoveBoard));
    assert(!(s.boards_key(code).1 is RemoveBoard));
    assert(!(s.submit(now).1 is RemoveBoard));
    assert(!(s.input_key(code, ctrl, now).1 is RemoveBoard));
}

/// A renamed board keeps its overrides and stays active if it was, and the other
/// boards keep theirs.
pub proof fn renaming_keeps_overrides(
    s: AppModel,
    from: Seq<char>,
    to: Seq<char>,
    other: Seq<char>,
)
    requires
        from != to,
        other != from,
        other != to,
    ensures
        ({
            let after = s.rename_board(from, to, keys::FileOutcome::Done).0;
            &&& s.cfg.boards.contains_key(from) ==> after.cfg.boards.contains_key(to)
                && after.cfg.boards[to] == s.cfg.boards[from] && !after.cfg.boards.contains_key(from)
            &&& after.cfg.boards.contains_key(other) == s.cfg.boards.contains_key(other)
            &&& s.cfg.boards.contains_key(other) ==> after.cfg.boards[other]
                == s.cfg.boards[other]
            &&& s.board == from ==> after.board == to && after.cfg.active_board == to
            &&& s.board != from ==> after.board == s.board && after.cfg.active_board
                == s.cfg.active_board
            &&& after.tasks == s.tasks
        }),
{
}

/// A deleted board's overrides go with it, and only those; if its file could not
/// be removed, they stay.
pub proof fn deleting_drops_overrides(s: AppModel, name: Seq<char>, e: Seq<char>, other: Seq<char>)
    requires
        other != name,
    ensures
        ({
            let after = s.delete_board(name, None).0;
            &&& !after.cfg.boards.contains_key(name)
            &&& after.cfg.boards.contains_key(other) == s.cfg.boards.contains_key(other)
            &&& s.cfg.boards.contains_key(other) ==> after.cfg.boards[other]
                == s.cfg.boards[other]
            &&& after.tasks == s.tasks
        }),
        s.delete_board(name, Some(e)).0.cfg == s.cfg,
{
}

/// A board that could not be loaded leaves everything as it was but for a message.
pub proof fn failed_loads_change_nothing(s: AppModel, name: Seq<char>, e: Seq<char>)
    ensures
        s.switch_board(name, Err(e)).0 == (AppModel {
            status: Some("load failed: "@ + e),
            ..s
        }),
        s.switch_board(name, Err(e)).1 == EffectModel::Nothing,
{
}

/// Switching shows the loaded tasks, from the top of the active section, with the
/// board's own settings in effect.
pub proof fn switching_starts_afresh(s: AppModel, name: Seq<char>, tasks: Seq<TaskModel>)
    ensures
        ({
            let after = s.switch_board(name, Ok(tasks)).0;
            &&& after.tasks == tasks
            &&& after.board == name
            &&& after.cfg.active_board == name
            &&& after.view == Section::Active
            &&& after.selected == 0
            &&& after.expanded == Set::<u64>::empty()
            &&& after.mode is Normal
            &&& after.theme == crate::theme::theme_named(after.cfg.effective(name).theme)
        }),
{
}

/// The board picker lists the active board, even without a file, and highlights
/// it.
pub proof fn picker_lists_the_active_board(s: AppModel, listed: Seq<Seq<char>>)
    requires
        listed.len() < usize::MAX,
    ensures
        s.board_names(listed).contains(s.board),
        s.open_boards(listed).picked_board() == Some(s.board),
{
    let names = s.board_names(listed);
    if !listed.contains(s.board) {
        let all = listed.push(s.board);
        text::sorting_is_possible(all);
        assert(all[all.len() - 1] == s.board);
        assert(all.to_multiset() =~= names.to_multiset());
        all.to_multiset_ensures();
        names.to_multiset_ensures();
        assert(all.contains(s.board));
        assert(names.to_multiset().count(s.board) > 0);
    }
    text_is_found(names, s.board);
}

/// A text in a list is found.
proof fn text_is_found(list: Seq<Seq<char>>, t: Seq<char>)
    requires
        list.len() <= usize::MAX,
    ensures
        match keys::find_text(list, t) {
            Some(i) => i < list.len() && list[i as int] == t,
            None => !list.contains(t),
        },
    decreases list.len(),
{
    if list.len() > 0 {
        let init = list.drop_last();
        text_is_found(init, t);
        if keys::find_text(list, t) is None && list.contains(t) {
            let j = choose|j: int| 0 <= j < list.len() && list[j] == t;
            assert(init[j] == t);
        }
    }
}

} // verus!
