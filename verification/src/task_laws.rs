//! What the operations on a task are for, whatever they are given.

use crate::cli;
use crate::model;
use crate::model::{NoteModel, Status, SubTaskModel, TaskModel, Thresholds};
use crate::text;
use crate::text_laws;
use vstd::prelude::*;

verus! {

/// A task's status goes by the seconds since its last update, none where the clock
/// stands before it: Hot below `hot_window`, Decaying from there below
/// `dormant_after`, Dormant from there for `bubble_after` more, Bubbling ever after.
pub proof fn status_goes_by_time_since_update(t: TaskModel, th: Thresholds, now: u64, secs: int)
    requires
        secs == (if now < t.last_updated {
            0
        } else {
            now - t.last_updated
        }),
    ensures
        t.age(now) == secs,
        secs < th.hot_window ==> t.status(th, now) == Status::Hot,
        th.hot_window <= secs < th.dormant_after ==> t.status(th, now) == Status::Decaying,
        th.hot_window <= secs && th.dormant_after <= secs < th.dormant_after + th.bubble_after
            ==> t.status(th, now) == Status::Dormant,
        th.hot_window <= secs && th.dormant_after + th.bubble_after <= secs ==> t.status(th, now)
            == Status::Bubbling,
{
}

/// A new task holds its title under its id, open, stamped with the time, and nothing
/// else.
pub proof fn new_tasks_are_bare(id: u64, title: Seq<char>, now: u64)
    ensures
        ({
            let t = model::new_task(id, title, now);
            &&& t.id == id && t.title == title && t.created == now && t.last_updated == now
            &&& !t.done
            &&& t.notes.len() == 0 && t.subtasks.len() == 0 && t.tags.len() == 0
        }),
{
}

/// A tag that is new goes behind the others, which stay where they are; one that is
/// there already, or none at all, changes nothing. Nothing but the tags changes.
pub proof fn tags_go_to_the_end(t: TaskModel, tag: Seq<char>)
    ensures
        ({
            let after = t.tagged(Some(tag));
            &&& after.id == t.id && after.title == t.title && after.notes == t.notes
            &&& after.created == t.created && after.last_updated == t.last_updated
            &&& after.done == t.done && after.subtasks == t.subtasks
            &&& (exists|k: int| 0 <= k < t.tags.len() && t.tags[k] == tag) ==> after.tags == t.tags
            &&& (forall|k: int| 0 <= k < t.tags.len() ==> t.tags[k] != tag) ==> after.tags
                == t.tags + seq![tag]
            &&& t.tagged(None) == t
        }),
{
    if forall|k: int| 0 <= k < t.tags.len() ==> t.tags[k] != tag {
        assert(!t.tags.contains(tag));
        assert(t.tags.push(tag) =~= t.tags + seq![tag]);
    }
}

/// Removing a tag leaves the others in their order, and nothing but the tags
/// changes.
pub proof fn removed_tags_leave_the_others(t: TaskModel, tag: Seq<char>)
    ensures
        ({
            let after = t.untagged(Some(tag));
            &&& after.id == t.id && after.title == t.title && after.notes == t.notes
            &&& after.created == t.created && after.last_updated == t.last_updated
            &&& after.done == t.done && after.subtasks == t.subtasks
            &&& after.tags == t.tags.filter(|x: Seq<char>| x != tag)
            &&& t.untagged(None) == t
        }),
{
    text_laws::dropping_is_filtering(t.tags, tag);
}

/// A task carries a tag if it is one of its tags, whole.
pub proof fn carrying_is_having_the_whole_tag(t: TaskModel, tag: Seq<char>)
    ensures
        t.carries(Some(tag)) <==> exists|k: int| 0 <= k < t.tags.len() && t.tags[k] == tag,
        !t.carries(None),
{
}

/// A tag is the trimmed text, lowercased; a text that leaves nothing is none.
pub proof fn tags_are_trimmed_and_lowercased(a: Seq<char>, m: Seq<char>, b: Seq<char>)
    requires
        forall|k: int| 0 <= k < a.len() ==> text::is_white(#[trigger] a[k]),
        forall|k: int| 0 <= k < b.len() ==> text::is_white(#[trigger] b[k]),
        m.len() > 0 ==> !text::is_white(m[0]) && !text::is_white(m.last()),
    ensures
        text::lowercase(m).len() > 0 ==> model::tag_of(a + m + b) == Some(text::lowercase(m)),
        text::lowercase(m).len() == 0 ==> model::tag_of(a + m + b) is None,
{
    text_laws::trimming_finds_the_middle(a, m, b);
}

/// A note goes behind the others, trimmed and stamped with the time; a blank one
/// changes nothing. Nothing but the notes changes.
pub proof fn notes_go_to_the_end(
    t: TaskModel,
    a: Seq<char>,
    m: Seq<char>,
    b: Seq<char>,
    now: u64,
)
    requires
        forall|k: int| 0 <= k < a.len() ==> text::is_white(#[trigger] a[k]),
        forall|k: int| 0 <= k < b.len() ==> text::is_white(#[trigger] b[k]),
        m.len() > 0 ==> !text::is_white(m[0]) && !text::is_white(m.last()),
    ensures
        ({
            let after = t.noted(a + m + b, now);
            &&& after.id == t.id && after.title == t.title && after.tags == t.tags
            &&& after.created == t.created && after.last_updated == t.last_updated
            &&& after.done == t.done && after.subtasks == t.subtasks
            &&& m.len() == 0 ==> after.notes == t.notes
            &&& m.len() > 0 ==> after.notes == t.notes + seq![NoteModel { text: m, created: now }]
        }),
{
    text_laws::trimming_finds_the_middle(a, m, b);
    if m.len() > 0 {
        assert(t.noted(a + m + b, now).notes =~= t.notes + seq![
            NoteModel { text: m, created: now },
        ]);
    }
}

/// Touching sets the time of the last update and nothing else.
pub proof fn touching_sets_the_time(t: TaskModel, now: u64)
    ensures
        ({
            let after = t.touched(now);
            &&& after.last_updated == now
            &&& after.id == t.id && after.title == t.title && after.tags == t.tags
            &&& after.created == t.created && after.notes == t.notes
            &&& after.done == t.done && after.subtasks == t.subtasks
        }),
{
}

/// Progress counts the subtasks that are done, each once.
pub proof fn progress_counts_what_is_done(s: Seq<SubTaskModel>)
    ensures
        model::done_count(s) == s.filter(|x: SubTaskModel| x.done).len(),
        model::done_count(s) <= s.len(),
    decreases s.len(),
{
    reveal(Seq::filter);
    if s.len() > 0 {
        progress_counts_what_is_done(s.drop_last());
    }
}

/// The greatest id is that of some task, unless there is none, and then it is zero:
/// the next id is one more than it, or one.
pub proof fn greatest_id_is_some_tasks(tasks: Seq<TaskModel>) -> (i: int)
    ensures
        tasks.len() == 0 ==> model::max_id(tasks) == 0,
        forall|k: int| 0 <= k < tasks.len() ==> (#[trigger] tasks[k]).id <= model::max_id(tasks),
        tasks.len() > 0 ==> 0 <= i < tasks.len() && tasks[i].id == model::max_id(tasks),
    decreases tasks.len(),
{
    if tasks.len() == 0 {
        0
    } else {
        let init = tasks.drop_last();
        let j = greatest_id_is_some_tasks(init);
        assert forall|k: int| 0 <= k < tasks.len() implies (#[trigger] tasks[k]).id
            <= model::max_id(tasks) by {
            if k < tasks.len() - 1 {
                assert(tasks[k] == init[k]);
            }
        }
        if tasks.last().id > model::max_id(init) || init.len() == 0 {
            tasks.len() - 1
        } else {
            j
        }
    }
}

/// A board's name is the trimmed text: refused if that is empty or holds a slash or
/// a backslash, and taken as it is otherwise.
pub proof fn board_names_are_trimmed(a: Seq<char>, m: Seq<char>, b: Seq<char>)
    requires
        forall|k: int| 0 <= k < a.len() ==> text::is_white(#[trigger] a[k]),
        forall|k: int| 0 <= k < b.len() ==> text::is_white(#[trigger] b[k]),
        m.len() > 0 ==> !text::is_white(m[0]) && !text::is_white(m.last()),
    ensures
        m.len() == 0 ==> model::board_name_of(a + m + b) is Err,
        (exists|k: int| 0 <= k < m.len() && (m[k] == '/' || m[k] == '\\'))
            ==> model::board_name_of(a + m + b) is Err,
        m.len() > 0 && (forall|k: int| 0 <= k < m.len() ==> m[k] != '/' && m[k] != '\\')
            ==> model::board_name_of(a + m + b) == Ok::<Seq<char>, Seq<char>>(m),
{
    text_laws::trimming_finds_the_middle(a, m, b);
    if exists|k: int| 0 <= k < m.len() && (m[k] == '/' || m[k] == '\\') {
        let k = choose|k: int| 0 <= k < m.len() && (m[k] == '/' || m[k] == '\\');
        assert(model::is_separator(m[k]));
    }
}

/// The notes given to a new task are kept in their order, trimmed, without the blank
/// ones, all stamped with the time.
pub proof fn notes_given_are_kept_in_order(t: TaskModel, notes: Seq<Seq<char>>, now: u64)
    ensures
        ({
            let after = cli::noted_all(t, notes, now);
            let texts = notes.map_values(|x: Seq<char>| text::trim(x)).filter(
                |x: Seq<char>| x.len() > 0,
            );
            &&& after.notes == t.notes + texts.map_values(
                |x: Seq<char>| NoteModel { text: x, created: now },
            )
            &&& after.id == t.id && after.title == t.title && after.tags == t.tags
            &&& after.created == t.created && after.last_updated == t.last_updated
            &&& after.done == t.done && after.subtasks == t.subtasks
        }),
    decreases notes.len(),
{
    reveal(Seq::filter);
    let trims = |x: Seq<char>| text::trim(x);
    let full = |x: Seq<char>| x.len() > 0;
    let note = |x: Seq<char>| NoteModel { text: x, created: now };
    let after = cli::noted_all(t, notes, now);
    if notes.len() == 0 {
        assert(notes.map_values(trims).filter(full).map_values(note) =~= Seq::empty());
        assert(after.notes =~= t.notes + Seq::empty());
    } else {
        let init = notes.drop_last();
        notes_given_are_kept_in_order(t, init, now);
        let all = notes.map_values(trims);
        assert(all.drop_last() =~= init.map_values(trims));
        assert(all.last() == text::trim(notes.last()));
        let kept = all.drop_last().filter(full);
        if text::trim(notes.last()).len() > 0 {
            assert(all.filter(full) =~= kept.push(text::trim(notes.last())));
            assert(after.notes =~= t.notes + all.filter(full).map_values(note));
        } else {
            assert(all.filter(full) =~= kept);
        }
    }
}

/// The tags given to a task are all carried and no others are added; none twice; the
/// ones given first stand first.
pub proof fn tags_given_are_kept_in_order(t: TaskModel, tags: Seq<Seq<char>>, x: Seq<char>, n: int)
    requires
        0 <= n <= tags.len(),
    ensures
        ({
            let after = cli::tagged_all(t, tags);
            let part = cli::tagged_all(t, tags.take(n));
            &&& after.tags.contains(x) <==> t.tags.contains(x) || exists|k: int|
                0 <= k < tags.len() && model::tag_of(#[trigger] tags[k]) == Some(x)
            &&& t.tags.no_duplicates() ==> after.tags.no_duplicates()
            &&& part.tags.len() <= after.tags.len()
            &&& after.tags.take(part.tags.len() as int) == part.tags
            &&& after.id == t.id && after.title == t.title && after.notes == t.notes
            &&& after.created == t.created && after.last_updated == t.last_updated
            &&& after.done == t.done && after.subtasks == t.subtasks
        }),
    decreases tags.len(),
{
    let after = cli::tagged_all(t, tags);
    if tags.len() == 0 {
        assert(tags.take(n) =~= tags);
        assert(after.tags.take(after.tags.len() as int) =~= after.tags);
    } else {
        let init = tags.drop_last();
        let m = if n < tags.len() {
            n
        } else {
            n - 1
        };
        tags_given_are_kept_in_order(t, init, x, m);
        let before = cli::tagged_all(t, init);
        let tag = model::tag_of(tags.last());
        if t.tags.no_duplicates() {
            model::tags_stay_distinct(before, tag);
        }
        assert(before.tags =~= after.tags.take(before.tags.len() as int));
        if n == tags.len() {
            assert(tags.take(n) =~= tags);
            assert(after.tags.take(after.tags.len() as int) =~= after.tags);
        } else {
            assert(tags.take(n) =~= init.take(n));
            let part = cli::tagged_all(t, tags.take(n));
            assert(after.tags.take(part.tags.len() as int) =~= before.tags.take(
                part.tags.len() as int,
            ));
        }
        let given = exists|k: int| 0 <= k < tags.len() && model::tag_of(#[trigger] tags[k]) == Some(x);
        let given_before = exists|k: int|
            0 <= k < init.len() && model::tag_of(#[trigger] init[k]) == Some(x);
        if given_before {
            let k = choose|k: int| 0 <= k < init.len() && model::tag_of(#[trigger] init[k]) == Some(x);
            assert(tags[k] == init[k]);
        }
        if given && !given_before {
            let k = choose|k: int| 0 <= k < tags.len() && model::tag_of(#[trigger] tags[k]) == Some(x);
            if k < init.len() {
                assert(init[k] == tags[k]);
            }
            assert(k == tags.len() - 1);
        }
        if tag == Some(x) {
            assert(tags[tags.len() - 1] == tags.last());
        }
        if before.tags.contains(x) {
            let k = choose|k: int| 0 <= k < before.tags.len() && before.tags[k] == x;
            assert(after.tags[k] == x);
        }
        if after.tags.contains(x) && !before.tags.contains(x) {
            let k = choose|k: int| 0 <= k < after.tags.len() && after.tags[k] == x;
            if k < before.tags.len() {
                assert(before.tags[k] == x);
            }
        }
        if tag == Some(x) && !before.tags.contains(x) {
            assert(after.tags[after.tags.len() - 1] == x);
        }
    }
}

} // verus!
