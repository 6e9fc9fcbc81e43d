//! What interactions do to the list. Each operation that depends on the time
//! comes twice: at a given time, and as of now.

use crate::app;
use crate::app::{App, AppModel, Row};
use crate::encode;
use crate::input;
use crate::model;
use crate::model::{Status, SubTask, Task, TaskModel, Timestamp};
use crate::text;
use vstd::prelude::*;
use vstd::string::*;

verus! {

broadcast use vstd::std_specs::hash::group_hash_axioms;

/// Replaces a task's tags by those that the words of a text stand for.
fn retag(t: &mut Task, input: &str)
    ensures
        final(t)@ == app::retagged(old(t)@, text::words(input@)),
{
    let words = text::split_words(input);
    let ghost all = text::texts(words@);
    let ghost before = t@;
    t.tags = Vec::new();
    let mut k: usize = 0;
    assert(all.take(0) =~= Seq::<Seq<char>>::empty());
    assert(t@ =~= app::retagged(before, all.take(0)));
    while k < words.len()
        invariant
            k <= words@.len(),
            all == text::texts(words@),
            t@ == app::retagged(before, all.take(k as int)),
        decreases words@.len() - k,
    {
        let word = text::strip_hashes(words[k].as_str());
        t.add_tag(word.as_str());
        assert(all.take(k + 1).drop_last() =~= all.take(k as int));
        assert(all.take(k + 1).last() == words@[k as int]@);
        k += 1;
    }
    assert(all.take(k as int) =~= all);
}

impl App {
    /// The highlighted row at `now`.
    pub fn selected_row_at(&self, now: Timestamp) -> (r: Option<Row>)
        ensures
            r == self@.selected_row(now),
            r matches Some(row) ==> app::row_in_range(self@.tasks, row),
    {
        let rows = self.rows_at(now);
        if self.selected < rows.len() {
            Some(rows[self.selected])
        } else {
            None
        }
    }

    /// The highlighted row.
    pub fn selected_row(&self) -> (r: Option<Row>)
        ensures
            exists|ts: u64| r == #[trigger] self@.selected_row(ts),
    {
        self.selected_row_at(model::now())
    }

    /// Task index of the selected row, only when a *task* row is highlighted.
    pub fn selected_task_at(&self, now: Timestamp) -> (r: Option<usize>)
        ensures
            r == self@.selected_task(now),
            r matches Some(ti) ==> ti < self.tasks@.len(),
    {
        match self.selected_row_at(now) {
            Some(Row::Task(ti)) => Some(ti),
            _ => None,
        }
    }

    /// Task index of the selected row, only when a *task* row is highlighted.
    pub fn selected_task(&self) -> (r: Option<usize>)
        ensures
            exists|ts: u64| r == #[trigger] self@.selected_task(ts),
    {
        self.selected_task_at(model::now())
    }

    /// Task index the selected row belongs to (task row, or a subtask's or note's
    /// parent).
    pub fn row_task_at(&self, now: Timestamp) -> (r: Option<usize>)
        ensures
            r == self@.row_task(now),
            r matches Some(ti) ==> ti < self.tasks@.len(),
    {
        match self.selected_row_at(now) {
            Some(Row::Task(ti)) => Some(ti),
            Some(Row::Sub(ti, _)) => Some(ti),
            Some(Row::Note(ti, _)) => Some(ti),
            None => None,
        }
    }

    /// Whether anything that moves is on screen.
    pub fn has_animation_at(&self, now: Timestamp) -> (r: bool)
        ensures
            r == self@.has_animation(now),
    {
        let th = self.ecfg().thresholds();
        let visible = self.visible_at(now);
        let mut p: usize = 0;
        while p < visible.len()
            invariant
                p <= visible@.len(),
                th == self@.thresholds(),
                visible@ == self@.visible(now),
                forall|k: int| 0 <= k < visible@.len() ==> (#[trigger] visible@[k]) < self.tasks@.len(),
                forall|k: int|
                    0 <= k < p ==> {
                        let st = self@.tasks[#[trigger] visible@[k] as int].status(
                            self@.thresholds(),
                            now,
                        );
                        st != Status::Hot && st != Status::Bubbling
                    },
            decreases visible@.len() - p,
        {
            let st = self.tasks[visible[p]].status(&th, now);
            assert(self@.tasks[visible@[p as int] as int] == self.tasks@[visible@[p as int] as int]@);
            if st == Status::Hot || st == Status::Bubbling {
                assert(self@.visible(now)[p as int] == visible@[p as int]);
                return true;
            }
            p += 1;
        }
        false
    }

    /// Empties the input line.
    pub fn clear_input(&mut self)
        ensures
            final(self)@ == old(self)@.clear_input(),
    {
        self.input = String::new();
        self.cursor = 0;
    }

    /// Puts a text on the input line, the cursor at its end.
    pub fn set_input(&mut self, s: String)
        ensures
            final(self)@ == old(self)@.set_input(s@),
            final(self)@.cursor == s@.len(),
    {
        self.cursor = s.as_str().unicode_len();
        self.input = s;
    }

    /// Move the top-level highlight onto the task with `id` after an
    /// interaction re-sorts the list, so selection follows the task it acted
    /// on. Falls back to clamping when the task left the current view.
    pub fn select_task_at(&mut self, id: u64, now: Timestamp)
        ensures
            final(self)@ == old(self)@.select_task(id, now),
    {
        let rows = self.rows_at(now);
        let ghost tasks = self@.tasks;
        let mut i: usize = 0;
        let mut found: Option<usize> = None;
        while i < rows.len() && found.is_none()
            invariant
                i <= rows@.len(),
                tasks == self@.tasks,
                self@ == old(self)@,
                forall|q: int| 0 <= q < rows@.len() ==> app::row_in_range(tasks, #[trigger] rows@[q]),
                found is None ==> app::find_row(tasks, rows@.take(i as int), id) is None,
                found is Some ==> found == app::find_row(tasks, rows@, id),
            decreases rows@.len() - i,
        {
            proof {
                assert(rows@.take(i + 1).drop_last() =~= rows@.take(i as int));
                assert(rows@.take(i + 1).last() == rows@[i as int]);
            }
            match rows[i] {
                Row::Task(ti) => {
                    assert(self@.tasks[ti as int] == self.tasks@[ti as int]@);
                    if self.tasks[ti].id == id {
                        found = Some(i);
                        proof {
                            app::row_found_early(tasks, rows@, id, i + 1);
                        }
                    }
                },
                _ => {},
            }
            i += 1;
        }
        match found {
            Some(i) => self.selected = i,
            None => {
                assert(rows@.take(i as int) =~= rows@);
                self.clamp_selection(rows.len());
            },
        }
    }

    /// Moves the highlight back onto the last of `rows` rows if it is past it.
    fn clamp_selection(&mut self, rows: usize)
        ensures
            final(self)@ == (AppModel {
                selected: app::clamped(old(self)@.selected, rows as nat),
                ..old(self)@
            }),
    {
        let last: usize = if rows == 0 {
            0
        } else {
            rows - 1
        };
        if self.selected > last {
            self.selected = last;
        }
    }

    /// Adds a task under the next free id.
    pub fn add_task_at(&mut self, title: String, now: Timestamp)
        requires
            model::max_id(old(self)@.tasks) < u64::MAX,
        ensures
            final(self)@ == old(self)@.add_task(title@, now),
    {
        let id = Task::next_id(self.tasks.as_slice());
        self.tasks.push(Task::new_at(id, title, now));
        self.selected = 0;
        assert(self@.tasks =~= old(self)@.add_task(title@, now).tasks);
    }

    /// Adds a task under the next free id.
    pub fn add_task(&mut self, title: String)
        requires
            model::max_id(old(self)@.tasks) < u64::MAX,
        ensures
            exists|ts: u64| final(self)@ == #[trigger] old(self)@.add_task(title@, ts),
    {
        self.add_task_at(title, model::now());
    }

    /// Retitles a task and touches it.
    pub fn apply_edit_at(&mut self, id: u64, title: String, now: Timestamp)
        ensures
            final(self)@ == old(self)@.apply_edit(id, title@, now),
    {
        if let Some(i) = app::find_index(&self.tasks, id) {
            let ghost t = self.tasks@[i as int]@;
            self.tasks[i].title = title;
            self.tasks[i].touch_at(now);
            assert(self@ =~= old(self)@.with_task(i, TaskModel { title: title@, ..t }.touched(now)));
        }
        self.select_task_at(id, now);
    }

    /// Retitles a task and touches it.
    pub fn apply_edit(&mut self, id: u64, title: String)
        ensures
            exists|ts: u64| final(self)@ == #[trigger] old(self)@.apply_edit(id, title@, ts),
    {
        self.apply_edit_at(id, title, model::now());
    }

    /// Retitles a subtask and touches its task.
    pub fn apply_edit_sub_at(&mut self, id: u64, si: usize, title: String, now: Timestamp)
        ensures
            final(self)@ == old(self)@.apply_edit_sub(id, si, title@, now),
    {
        if let Some(i) = app::find_index(&self.tasks, id) {
            let ghost t = self.tasks@[i as int]@;
            if si < self.tasks[i].subtasks.len() {
                self.tasks[i].subtasks[si].title = title;
                self.tasks[i].touch_at(now);
                proof {
                    let s = model::SubTaskModel { title: title@, ..t.subtasks[si as int] };
                    let after = TaskModel { subtasks: t.subtasks.update(si as int, s), ..t }.touched(
                        now,
                    );
                    assert(self.tasks@[i as int]@.subtasks =~= after.subtasks);
                    assert(self@ =~= old(self)@.with_task(i, after));
                }
            }
        }
        self.select_task_at(id, now);
    }

    /// Retitles a subtask and touches its task.
    pub fn apply_edit_sub(&mut self, id: u64, si: usize, title: String)
        ensures
            exists|ts: u64| final(self)@ == #[trigger] old(self)@.apply_edit_sub(id, si, title@, ts),
    {
        self.apply_edit_sub_at(id, si, title, model::now());
    }

    /// Rewords a note and touches its task.
    pub fn apply_edit_note_at(&mut self, id: u64, ni: usize, text: String, now: Timestamp)
        ensures
            final(self)@ == old(self)@.apply_edit_note(id, ni, text@, now),
    {
        if let Some(i) = app::find_index(&self.tasks, id) {
            let ghost t = self.tasks@[i as int]@;
            if ni < self.tasks[i].notes.len() {
                self.tasks[i].notes[ni].text = text;
                self.tasks[i].touch_at(now);
                proof {
                    let n = model::NoteModel { text: text@, ..t.notes[ni as int] };
                    let after = TaskModel { notes: t.notes.update(ni as int, n), ..t }.touched(now);
                    assert(self.tasks@[i as int]@.notes =~= after.notes);
                    assert(self@ =~= old(self)@.with_task(i, after));
                }
            }
        }
        self.select_task_at(id, now);
    }

    /// Rewords a note and touches its task.
    pub fn apply_edit_note(&mut self, id: u64, ni: usize, text: String)
        ensures
            exists|ts: u64| final(self)@ == #[trigger] old(self)@.apply_edit_note(id, ni, text@, ts),
    {
        self.apply_edit_note_at(id, ni, text, model::now());
    }

    /// Re-set a task's whole tag set from a space-separated input, with the
    /// normalization + dedup of `add_tag`. A leading `#` (as shown in chips)
    /// is tolerated. Editing tags touches the task, like every interaction.
    pub fn apply_tags_at(&mut self, id: u64, input: String, now: Timestamp)
        ensures
            final(self)@ == old(self)@.apply_tags(id, input@, now),
    {
        if let Some(i) = app::find_index(&self.tasks, id) {
            let ghost t = self.tasks@[i as int]@;
            retag(&mut self.tasks[i], input.as_str());
            self.tasks[i].touch_at(now);
            assert(self@ =~= old(self)@.with_task(
                i,
                app::retagged(t, text::words(input@)).touched(now),
            ));
        }
        self.select_task_at(id, now);
    }

    /// Re-set a task's whole tag set from a space-separated input.
    pub fn apply_tags(&mut self, id: u64, input: String)
        ensures
            exists|ts: u64| final(self)@ == #[trigger] old(self)@.apply_tags(id, input@, ts),
    {
        self.apply_tags_at(id, input, model::now());
    }

    /// Appends a subtask, touching and expanding its task.
    pub fn add_subtask_at(&mut self, id: u64, title: String, now: Timestamp)
        ensures
            final(self)@ == old(self)@.add_subtask(id, title@, now),
    {
        if let Some(i) = app::find_index(&self.tasks, id) {
            let ghost t = self.tasks@[i as int]@;
            self.tasks[i].subtasks.push(SubTask { title, done: false });
            self.tasks[i].touch_at(now);
            proof {
                let s = model::SubTaskModel { title: title@, done: false };
                let after = TaskModel { subtasks: t.subtasks.push(s), ..t }.touched(now);
                assert(self.tasks@[i as int]@.subtasks =~= after.subtasks);
                assert(self@ =~= old(self)@.with_task(i, after));
            }
        }
        self.expanded.insert(id);
        self.select_task_at(id, now);
    }

    /// Appends a subtask, touching and expanding its task.
    pub fn add_subtask(&mut self, id: u64, title: String)
        ensures
            exists|ts: u64| final(self)@ == #[trigger] old(self)@.add_subtask(id, title@, ts),
    {
        self.add_subtask_at(id, title, model::now());
    }

    /// Appends a note, touching and expanding its task.
    pub fn add_note_at(&mut self, id: u64, text: String, now: Timestamp)
        ensures
            final(self)@ == old(self)@.add_note(id, text@, now),
    {
        if let Some(i) = app::find_index(&self.tasks, id) {
            let ghost t = self.tasks@[i as int]@;
            self.tasks[i].add_note_at(text.as_str(), now);
            self.tasks[i].touch_at(now);
            assert(self@ =~= old(self)@.with_task(i, t.noted(text@, now).touched(now)));
        }
        self.expanded.insert(id);
        self.select_task_at(id, now);
    }

    /// Appends a note, touching and expanding its task.
    pub fn add_note(&mut self, id: u64, text: String)
        ensures
            exists|ts: u64| final(self)@ == #[trigger] old(self)@.add_note(id, text@, ts),
    {
        self.add_note_at(id, text, model::now());
    }

    /// Toggle done on the highlighted row: a task, or a subtask (which also
    /// touches its parent, since interacting keeps a task relevant). Returns
    /// whether there was anything to toggle: notes have no done state.
    pub fn toggle_selected_at(&mut self, now: Timestamp) -> (r: bool)
        ensures
            final(self)@ == old(self)@.toggle_selected(now),
            r == (old(self)@.selected_row(now) matches Some(row) && row !is Note),
    {
        match self.selected_row_at(now) {
            Some(Row::Task(ti)) => {
                let ghost t = self.tasks@[ti as int]@;
                let flipped = !self.tasks[ti].done;
                self.tasks[ti].done = flipped;
                assert(self@ =~= old(self)@.with_task(ti, TaskModel { done: !t.done, ..t }));
                true
            },
            Some(Row::Sub(ti, si)) => {
                let ghost t = self.tasks@[ti as int]@;
                assert(self@.tasks[ti as int] == t);
                let flipped = !self.tasks[ti].subtasks[si].done;
                self.tasks[ti].subtasks[si].done = flipped;
                self.tasks[ti].touch_at(now);
                proof {
                    let s = t.subtasks[si as int];
                    let f = model::SubTaskModel { done: !s.done, ..s };
                    let after = TaskModel { subtasks: t.subtasks.update(si as int, f), ..t }.touched(
                        now,
                    );
                    assert(self.tasks@[ti as int]@.subtasks =~= after.subtasks);
                    assert(self@ =~= old(self)@.with_task(ti, after));
                }
                true
            },
            _ => false,
        }
    }

    /// Toggle done on the highlighted row.
    pub fn toggle_selected(&mut self) -> (r: bool)
        ensures
            exists|ts: u64|
                final(self)@ == #[trigger] old(self)@.toggle_selected(ts) && r == (old(
                    self,
                )@.selected_row(ts) matches Some(row) && row !is Note),
    {
        let now = model::now();
        let r = self.toggle_selected_at(now);
        assert(self@ == old(self)@.toggle_selected(now));
        r
    }

    /// Expands the highlighted task, or collapses it if it is expanded.
    pub fn toggle_expand_at(&mut self, now: Timestamp)
        ensures
            final(self)@ == old(self)@.toggle_expand(now),
    {
        if let Some(ti) = self.selected_task_at(now) {
            assert(self@.tasks[ti as int] == self.tasks@[ti as int]@);
            let id: u64 = self.tasks[ti].id;
            if !self.expanded.remove(&id) {
                self.expanded.insert(id);
            }
            assert(self@ =~= old(self)@.toggle_expand(now));
        }
    }

    /// Expands the highlighted task, or collapses it if it is expanded.
    pub fn toggle_expand(&mut self)
        ensures
            exists|ts: u64| final(self)@ == #[trigger] old(self)@.toggle_expand(ts),
    {
        self.toggle_expand_at(model::now());
    }

    /// Bring a task back to Hot/active: clears `done` (so it leaves the Done
    /// view) and touches it. This is the path back from Dormant or Done.
    pub fn revive_selected_at(&mut self, now: Timestamp) -> (r: bool)
        ensures
            final(self)@ == old(self)@.revive_selected(now),
            r == old(self)@.selected_task(now) is Some,
    {
        match self.selected_task_at(now) {
            Some(ti) => {
                let ghost t = self.tasks@[ti as int]@;
                assert(self@.tasks[ti as int] == t);
                self.tasks[ti].done = false;
                self.tasks[ti].touch_at(now);
                assert(self@ =~= old(self)@.with_task(ti, TaskModel { done: false, ..t }.touched(now)));
                let id: u64 = self.tasks[ti].id;
                self.select_task_at(id, now);
                true
            },
            None => false,
        }
    }

    /// Bring a task back to Hot/active.
    pub fn revive_selected(&mut self) -> (r: bool)
        ensures
            exists|ts: u64|
                final(self)@ == #[trigger] old(self)@.revive_selected(ts) && r == old(
                    self,
                )@.selected_task(ts) is Some,
    {
        let now = model::now();
        let r = self.revive_selected_at(now);
        assert(self@ == old(self)@.revive_selected(now));
        r
    }

    /// Delete the highlighted row: a task (with its subtasks), or a single
    /// subtask or note (touching its parent).
    pub fn remove_selected_at(&mut self, now: Timestamp) -> (r: bool)
        ensures
            final(self)@ == old(self)@.remove_selected(now),
            r == old(self)@.selected_row(now) is Some,
    {
        match self.selected_row_at(now) {
            Some(Row::Task(ti)) => {
                assert(self@.tasks[ti as int] == self.tasks@[ti as int]@);
                let id: u64 = self.tasks[ti].id;
                self.expanded.remove(&id);
                self.tasks.remove(ti);
                assert(self@ =~= old(self)@.without_selected(now));
            },
            Some(Row::Sub(ti, si)) => {
                let ghost t = self.tasks@[ti as int]@;
                assert(self@.tasks[ti as int] == t);
                self.tasks[ti].subtasks.remove(si);
                self.tasks[ti].touch_at(now);
                proof {
                    let after = TaskModel { subtasks: t.subtasks.remove(si as int), ..t }.touched(
                        now,
                    );
                    assert(self.tasks@[ti as int]@.subtasks =~= after.subtasks);
                    assert(self@ =~= old(self)@.with_task(ti, after));
                }
            },
            Some(Row::Note(ti, ni)) => {
                let ghost t = self.tasks@[ti as int]@;
                assert(self@.tasks[ti as int] == t);
                self.tasks[ti].notes.remove(ni);
                self.tasks[ti].touch_at(now);
                proof {
                    let after = TaskModel { notes: t.notes.remove(ni as int), ..t }.touched(now);
                    assert(self.tasks@[ti as int]@.notes =~= after.notes);
                    assert(self@ =~= old(self)@.with_task(ti, after));
                }
            },
            None => return false,
        }
        let rows = self.rows_at(now);
        self.clamp_selection(rows.len());
        true
    }

    /// Delete the highlighted row.
    pub fn remove_selected(&mut self) -> (r: bool)
        ensures
            exists|ts: u64|
                final(self)@ == #[trigger] old(self)@.remove_selected(ts) && r == old(
                    self,
                )@.selected_row(ts) is Some,
    {
        let now = model::now();
        let r = self.remove_selected_at(now);
        assert(self@ == old(self)@.remove_selected(now));
        r
    }

    /// The selected row's text (task title, subtask title, or note) as the
    /// terminal escape that copies it to the system clipboard.
    pub fn yank_selected_at(&mut self, now: Timestamp) -> (r: Option<String>)
        ensures
            final(self)@ == old(self)@.yanked(now),
            match old(self)@.selected_text(now) {
                Some(t) => r matches Some(e) && e@ == encode::clipboard_of(t),
                None => r is None,
            },
    {
        let row = match self.selected_row_at(now) {
            Some(row) => row,
            None => return None,
        };
        let t: String = match row {
            Row::Task(ti) => {
                assert(self@.tasks[ti as int] == self.tasks@[ti as int]@);
                self.tasks[ti].title.clone()
            },
            Row::Sub(ti, si) => {
                assert(self@.tasks[ti as int] == self.tasks@[ti as int]@);
                self.tasks[ti].subtasks[si].title.clone()
            },
            Row::Note(ti, ni) => {
                assert(self@.tasks[ti as int] == self.tasks@[ti as int]@);
                self.tasks[ti].notes[ni].text.clone()
            },
        };
        let mut msg = "yanked: ".to_owned();
        msg.append(input::tail(t.as_str(), 40).as_str());
        self.status = Some(msg);
        Some(encode::clipboard_escape(t.as_str()))
    }

    /// The selected row's text as the terminal escape that copies it.
    pub fn yank_selected(&mut self) -> (r: Option<String>)
        ensures
            exists|ts: u64|
                final(self)@ == #[trigger] old(self)@.yanked(ts) && match old(self)@.selected_text(
                    ts,
                ) {
                    Some(t) => r matches Some(e) && e@ == encode::clipboard_of(t),
                    None => r is None,
                },
    {
        let now = model::now();
        let r = self.yank_selected_at(now);
        assert(self@ == old(self)@.yanked(now));
        r
    }

    /// Whether a task matches a lowercased query, given its lowercased title.
    fn task_matches(t: &Task, title: &str, query: &str) -> (r: bool)
        ensures
            r == app::matches_query(t@, title@, query@),
    {
        if text::contains_str(title, query) {
            return true;
        }
        let mut k: usize = 0;
        while k < t.tags.len()
            invariant
                k <= t.tags@.len(),
                forall|j: int| 0 <= j < k ==> !text::occurs(#[trigger] t@.tags[j], query@),
            decreases t.tags@.len() - k,
        {
            if text::contains_str(t.tags[k].as_str(), query) {
                assert(text::occurs(t@.tags[k as int], query@));
                return true;
            }
            k += 1;
        }
        false
    }

    /// The first of some rows that matches a lowercased query, given the
    /// lowercased titles of all tasks.
    pub fn match_in(&self, rows: &Vec<Row>, titles: &Vec<String>, query: &str) -> (r: Option<usize>)
        requires
            titles@.len() == self.tasks@.len(),
            forall|q: int| 0 <= q < rows@.len() ==> app::row_in_range(self@.tasks, #[trigger] rows@[q]),
        ensures
            r == app::first_match(self@.tasks, text::texts(titles@), rows@, query@),
    {
        let ghost tasks = self@.tasks;
        let ghost all = text::texts(titles@);
        let mut i: usize = 0;
        while i < rows.len()
            invariant
                i <= rows@.len(),
                tasks == self@.tasks,
                all == text::texts(titles@),
                titles@.len() == self.tasks@.len(),
                forall|q: int| 0 <= q < rows@.len() ==> app::row_in_range(tasks, #[trigger] rows@[q]),
                app::first_match(tasks, all, rows@.take(i as int), query@) is None,
            decreases rows@.len() - i,
        {
            proof {
                assert(rows@.take(i + 1).drop_last() =~= rows@.take(i as int));
                assert(rows@.take(i + 1).last() == rows@[i as int]);
            }
            match rows[i] {
                Row::Task(ti) => {
                    assert(tasks[ti as int] == self.tasks@[ti as int]@);
                    if App::task_matches(&self.tasks[ti], titles[ti].as_str(), query) {
                        proof {
                            app::match_found_early(tasks, all, rows@, query@, i + 1);
                        }
                        return Some(i);
                    }
                },
                _ => {},
            }
            i += 1;
        }
        assert(rows@.take(i as int) =~= rows@);
        None
    }

    /// Row index of the first task matching `query` (case-insensitive substring
    /// of the title or any tag). None when the query is empty or nothing hits.
    pub fn find_match_at(&self, query: &str, now: Timestamp) -> (r: Option<usize>)
        ensures
            r == self@.find_match(query@, now),
            text::trim(query@).len() == 0 ==> r is None,
    {
        let q = text::trimmed(query).as_str().to_lowercase();
        if q.as_str().is_empty() {
            return None;
        }
        let rows = self.rows_at(now);
        let mut titles: Vec<String> = Vec::new();
        let mut i: usize = 0;
        while i < self.tasks.len()
            invariant
                i <= self.tasks@.len(),
                titles@.len() == i,
                forall|j: int|
                    0 <= j < i ==> (#[trigger] titles@[j])@ == app::lowered_titles(self@.tasks)[j],
            decreases self.tasks@.len() - i,
        {
            assert(self@.tasks[i as int] == self.tasks@[i as int]@);
            titles.push(self.tasks[i].title.as_str().to_lowercase());
            i += 1;
        }
        assert(text::texts(titles@) =~= app::lowered_titles(self@.tasks));
        self.match_in(&rows, &titles, q.as_str())
    }

    /// Row index of the first task matching `query`.
    pub fn find_match(&self, query: &str) -> (r: Option<usize>)
        ensures
            exists|ts: u64| r == #[trigger] self@.find_match(query@, ts),
            text::trim(query@).len() == 0 ==> r is None,
    {
        self.find_match_at(query, model::now())
    }
}

} // verus!
