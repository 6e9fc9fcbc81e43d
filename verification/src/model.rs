//! Domain model: tasks, subtasks, and derived lifecycle status.
//!
//! Lifecycle status is never stored: it is computed from `last_updated` and the
//! configured thresholds, so it can never drift out of sync with the data.

use crate::text;
use vstd::prelude::*;
use vstd::string::*;

verus! {

/// Unix-epoch seconds.
pub type Timestamp = u64;

/// The clock, by `SystemTime::now` and `SystemTime::duration_since`: whole seconds
/// counted from `UNIX_EPOCH`, or none where the clock stands before it. Nothing is
/// known of the reading.
#[verifier::external_body]
fn clock() -> (r: Option<Timestamp>) {
    match std::time::SystemTime::now().duration_since(std::time::UNIX_EPOCH) {
        Ok(d) => Some(d.as_secs()),
        Err(_) => None,
    }
}

/// The time that a clock reading stands for.
pub open spec fn read_as_time(reading: Option<u64>) -> u64 {
    match reading {
        Some(t) => t,
        None => 0,
    }
}

/// The time that a clock reading stands for: the epoch itself where the clock is
/// set before it.
pub fn time_of(reading: Option<Timestamp>) -> (r: Timestamp)
    ensures
        r == read_as_time(reading),
{
    match reading {
        Some(t) => t,
        None => 0,
    }
}

/// Current wall-clock time as unix-epoch seconds, never before the epoch. Any time
/// may come back.
pub fn now() -> (r: Timestamp) {
    time_of(clock())
}

/// Age-ordered lifecycle bands. Derived from a task's age, never stored.
#[derive(Debug, Clone, Copy, PartialEq, Eq, Structural)]
pub enum Status {
    Hot,
    Decaying,
    Dormant,
    Bubbling,
}

impl Status {
    /// Position of the band, from the youngest age to the oldest.
    pub open spec fn rank(self) -> int {
        match self {
            Status::Hot => 0,
            Status::Decaying => 1,
            Status::Dormant => 2,
            Status::Bubbling => 3,
        }
    }
}

/// Time thresholds, in seconds, partitioning a task's age into lifecycle bands.
#[derive(Debug, Clone, Copy)]
pub struct Thresholds {
    /// Age below which a task is Hot.
    pub hot_window: u64,
    /// Age at which a Decaying task becomes Dormant.
    pub dormant_after: u64,
    /// Extra age *beyond* `dormant_after` at which a Dormant task starts Bubbling.
    pub bubble_after: u64,
}

impl Thresholds {
    /// The band of an age. Bands are half-open and contiguous.
    pub open spec fn band(self, age: int) -> Status {
        if age < self.hot_window {
            Status::Hot
        } else if age < self.dormant_after {
            Status::Decaying
        } else if age < self.dormant_after + self.bubble_after {
            Status::Dormant
        } else {
            Status::Bubbling
        }
    }
}

/// One step of a task.
#[derive(Debug, PartialEq, Eq)]
pub struct SubTask {
    pub title: String,
    pub done: bool,
}

/// A freeform note on a task: additional detail/consideration, timestamped so
/// the history is visible when a bubbling task resurfaces.
#[derive(Debug, PartialEq, Eq)]
pub struct Note {
    pub text: String,
    pub created: Timestamp,
}

/// A task with its notes, subtasks and tags.
#[derive(Debug, PartialEq, Eq)]
pub struct Task {
    pub id: u64,
    pub title: String,
    /// Timestamped details/considerations, appended over time.
    pub notes: Vec<Note>,
    pub created: Timestamp,
    pub last_updated: Timestamp,
    pub done: bool,
    pub subtasks: Vec<SubTask>,
    /// Freeform categories, normalized lowercase (e.g. "monitoring", "perf").
    pub tags: Vec<String>,
}

/// What a subtask holds.
#[verifier::ext_equal]
pub struct SubTaskModel {
    pub title: Seq<char>,
    pub done: bool,
}

/// What a note holds.
#[verifier::ext_equal]
pub struct NoteModel {
    pub text: Seq<char>,
    pub created: u64,
}

/// What a task holds.
#[verifier::ext_equal]
pub struct TaskModel {
    pub id: u64,
    pub title: Seq<char>,
    pub notes: Seq<NoteModel>,
    pub created: u64,
    pub last_updated: u64,
    pub done: bool,
    pub subtasks: Seq<SubTaskModel>,
    pub tags: Seq<Seq<char>>,
}

impl View for SubTask {
    type V = SubTaskModel;

    open spec fn view(&self) -> SubTaskModel {
        SubTaskModel { title: self.title@, done: self.done }
    }
}

impl View for Note {
    type V = NoteModel;

    open spec fn view(&self) -> NoteModel {
        NoteModel { text: self.text@, created: self.created }
    }
}

impl View for Task {
    type V = TaskModel;

    open spec fn view(&self) -> TaskModel {
        TaskModel {
            id: self.id,
            title: self.title@,
            notes: note_models(self.notes@),
            created: self.created,
            last_updated: self.last_updated,
            done: self.done,
            subtasks: subtask_models(self.subtasks@),
            tags: text::texts(self.tags@),
        }
    }
}

/// What a list of subtasks holds.
pub open spec fn subtask_models(s: Seq<SubTask>) -> Seq<SubTaskModel> {
    Seq::new(s.len(), |i: int| s[i]@)
}

/// What a list of notes holds.
pub open spec fn note_models(s: Seq<Note>) -> Seq<NoteModel> {
    Seq::new(s.len(), |i: int| s[i]@)
}

/// What a list of tasks holds.
pub open spec fn task_models(s: Seq<Task>) -> Seq<TaskModel> {
    Seq::new(s.len(), |i: int| s[i]@)
}

impl TaskModel {
    /// Seconds since the last update; zero when the clock stands before it.
    pub open spec fn age(self, now: u64) -> int {
        if now >= self.last_updated {
            now - self.last_updated
        } else {
            0
        }
    }

    /// The band that the age falls into.
    pub open spec fn status(self, th: Thresholds, now: u64) -> Status {
        th.band(self.age(now))
    }

    /// The task, marked freshly relevant at `now`.
    pub open spec fn touched(self, now: u64) -> TaskModel {
        TaskModel { last_updated: now, ..self }
    }

    /// The task with a normalized tag, which it holds at most once.
    pub open spec fn tagged(self, tag: Option<Seq<char>>) -> TaskModel {
        match tag {
            Some(t) if !self.tags.contains(t) => TaskModel { tags: self.tags.push(t), ..self },
            _ => self,
        }
    }

    /// The task without a normalized tag.
    pub open spec fn untagged(self, tag: Option<Seq<char>>) -> TaskModel {
        match tag {
            Some(t) => TaskModel { tags: text::dropping(self.tags, t), ..self },
            None => self,
        }
    }

    /// Whether the task carries a normalized tag.
    pub open spec fn carries(self, tag: Option<Seq<char>>) -> bool {
        tag is Some && self.tags.contains(tag->0)
    }

    /// The task with a note of the given text, unless that is blank.
    pub open spec fn noted(self, text: Seq<char>, now: u64) -> TaskModel {
        if text::trim(text).len() == 0 {
            self
        } else {
            TaskModel {
                notes: self.notes.push(NoteModel { text: text::trim(text), created: now }),
                ..self
            }
        }
    }

    /// How many subtasks are done.
    pub open spec fn subtasks_done(self) -> nat {
        done_count(self.subtasks)
    }
}

/// How many of the subtasks are done.
pub open spec fn done_count(s: Seq<SubTaskModel>) -> nat
    decreases s.len(),
{
    if s.len() == 0 {
        0
    } else {
        done_count(s.drop_last()) + if s.last().done {
            1nat
        } else {
            0
        }
    }
}

/// A task that was just created.
pub open spec fn new_task(id: u64, title: Seq<char>, now: u64) -> TaskModel {
    TaskModel {
        id,
        title,
        notes: Seq::empty(),
        created: now,
        last_updated: now,
        done: false,
        subtasks: Seq::empty(),
        tags: Seq::empty(),
    }
}

/// The greatest id in the list, or zero.
pub open spec fn max_id(tasks: Seq<TaskModel>) -> nat
    decreases tasks.len(),
{
    if tasks.len() == 0 {
        0
    } else {
        let rest = max_id(tasks.drop_last());
        if tasks.last().id > rest {
            tasks.last().id as nat
        } else {
            rest
        }
    }
}

/// The tag that a text stands for once lowercased: none when it is empty.
pub open spec fn nonempty(lowered: Seq<char>) -> Option<Seq<char>> {
    if lowered.len() == 0 {
        None
    } else {
        Some(lowered)
    }
}

/// The tag that a text stands for: trimmed and lowercased.
pub open spec fn tag_of(s: Seq<char>) -> Option<Seq<char>> {
    nonempty(text::lowercase(text::trim(s)))
}

/// The tag that a text stands for if it is ASCII once trimmed: its letters made
/// small.
pub open spec fn ascii_tag_of(s: Seq<char>) -> Option<Seq<char>> {
    nonempty(text::ascii_lowered(text::trim(s)))
}

/// The tag that a lowercased text is, or `None` if empty.
pub fn tag_from_lowered(lowered: String) -> (r: Option<String>)
    ensures
        text::opt_text(r) == nonempty(lowered@),
{
    if lowered.as_str().is_empty() {
        None
    } else {
        Some(lowered)
    }
}

/// Normalize a tag: trimmed + lowercased, or `None` if empty.
pub fn normalize_tag(s: &str) -> (r: Option<String>)
    ensures
        text::opt_text(r) == tag_of(s@),
        r is None <==> text::trim(s@).len() == 0,
        text::all_ascii(text::trim(s@)) ==> text::opt_text(r) == ascii_tag_of(s@),
{
    tag_from_lowered(text::trimmed(s).as_str().to_lowercase())
}

/// Whether a character separates the parts of a path.
pub open spec fn is_separator(c: char) -> bool {
    c == '/' || c == '\\'
}

/// The name that a board goes by, or why the text cannot name one: a board's
/// name is part of a file name, so it is not blank and holds no path separator.
pub open spec fn board_name_of(s: Seq<char>) -> Result<Seq<char>, Seq<char>> {
    let t = text::trim(s);
    if t.len() == 0 {
        Err("board name is empty"@)
    } else if exists|i: int| 0 <= i < t.len() && is_separator(#[trigger] t[i]) {
        Err("board name '"@ + t + "' contains a path separator"@)
    } else {
        Ok(t)
    }
}

/// Normalize a board name: trimmed, and usable as part of a file name.
pub fn normalize_board_name(s: &str) -> (r: Result<String, String>)
    ensures
        text::result_text(r) == board_name_of(s@),
{
    let t = text::trimmed(s);
    if t.as_str().is_empty() {
        return Err("board name is empty".to_owned());
    }
    let v = text::chars_of(t.as_str());
    let mut i: usize = 0;
    while i < v.len()
        invariant
            i <= v@.len(),
            v@ == t@,
            t@ == text::trim(s@),
            t@.len() > 0,
            forall|j: int| 0 <= j < i ==> !is_separator(#[trigger] v@[j]),
        decreases v@.len() - i,
    {
        if v[i] == '/' || v[i] == '\\' {
            assert(is_separator(t@[i as int]));
            let mut e = "board name '".to_owned();
            e.append(t.as_str());
            e.append("' contains a path separator");
            return Err(e);
        }
        i += 1;
    }
    Ok(t)
}

impl Clone for SubTask {
    fn clone(&self) -> (r: Self)
        ensures
            r@ == self@,
    {
        SubTask { title: self.title.clone(), done: self.done }
    }
}

impl Clone for Note {
    fn clone(&self) -> (r: Self)
        ensures
            r@ == self@,
    {
        Note { text: self.text.clone(), created: self.created }
    }
}

impl Clone for Task {
    fn clone(&self) -> (r: Self)
        ensures
            r@ == self@,
    {
        let mut notes: Vec<Note> = Vec::new();
        let mut i: usize = 0;
        while i < self.notes.len()
            invariant
                i <= self.notes@.len(),
                notes@.len() == i,
                forall|j: int| 0 <= j < i ==> (#[trigger] notes@[j])@ == self.notes@[j]@,
            decreases self.notes@.len() - i,
        {
            notes.push(self.notes[i].clone());
            i += 1;
        }
        let mut subtasks: Vec<SubTask> = Vec::new();
        let mut i: usize = 0;
        while i < self.subtasks.len()
            invariant
                i <= self.subtasks@.len(),
                subtasks@.len() == i,
                forall|j: int| 0 <= j < i ==> (#[trigger] subtasks@[j])@ == self.subtasks@[j]@,
            decreases self.subtasks@.len() - i,
        {
            subtasks.push(self.subtasks[i].clone());
            i += 1;
        }
        assert(note_models(notes@) =~= note_models(self.notes@));
        assert(subtask_models(subtasks@) =~= subtask_models(self.subtasks@));
        Task {
            id: self.id,
            title: self.title.clone(),
            notes,
            created: self.created,
            last_updated: self.last_updated,
            done: self.done,
            subtasks,
            tags: text::clone_texts(&self.tags),
        }
    }
}

impl Task {
    /// A task created at `now`.
    pub fn new_at(id: u64, title: String, now: Timestamp) -> (r: Task)
        ensures
            r@ == new_task(id, title@, now),
    {
        let r = Task {
            id,
            title,
            notes: Vec::new(),
            created: now,
            last_updated: now,
            done: false,
            subtasks: Vec::new(),
            tags: Vec::new(),
        };
        assert(r@ =~= new_task(id, title@, now));
        r
    }

    /// A task created now.
    pub fn new(id: u64, title: String) -> (r: Task)
        ensures
            exists|ts: u64| r@ == new_task(id, title@, ts),
    {
        Task::new_at(id, title, now())
    }

    /// Add a normalized tag, deduped. Returns whether it was newly added.
    pub fn add_normalized(&mut self, tag: Option<String>) -> (r: bool)
        ensures
            r == (tag is Some && !old(self)@.tags.contains(tag->0@)),
            final(self)@ == old(self)@.tagged(text::opt_text(tag)),
    {
        match tag {
            Some(t) => {
                if text::contains_text(&self.tags, t.as_str()) {
                    return false;
                }
                self.tags.push(t);
                assert(self@ =~= old(self)@.tagged(text::opt_text(tag)));
                true
            },
            None => false,
        }
    }

    /// Add a tag (normalized, deduped). Returns whether it was newly added.
    pub fn add_tag(&mut self, tag: &str) -> (r: bool)
        ensures
            r == (tag_of(tag@) is Some && !old(self)@.carries(tag_of(tag@))),
            final(self)@ == old(self)@.tagged(tag_of(tag@)),
            text::trim(tag@).len() == 0 ==> !r && final(self)@ == old(self)@,
    {
        self.add_normalized(normalize_tag(tag))
    }

    /// Append a note (trimmed, stamped `now`). Returns whether one was added
    /// (empty/whitespace text is ignored).
    pub fn add_note_at(&mut self, text: &str, now: Timestamp) -> (r: bool)
        ensures
            r == (text::trim(text@).len() > 0),
            final(self)@ == old(self)@.noted(text@, now),
    {
        let t = text::trimmed(text);
        if t.as_str().is_empty() {
            return false;
        }
        self.notes.push(Note { text: t, created: now });
        assert(self@ =~= old(self)@.noted(text@, now));
        true
    }

    /// Append a note (trimmed + timestamped). Returns whether one was added
    /// (empty/whitespace text is ignored). Does not touch; the caller does, so
    /// note-taking follows the same "interaction resets to Hot" rule as tags.
    pub fn add_note(&mut self, text: &str) -> (r: bool)
        ensures
            r == (text::trim(text@).len() > 0),
            exists|ts: u64| final(self)@ == old(self)@.noted(text@, ts),
    {
        self.add_note_at(text, now())
    }

    /// Remove a normalized tag. Returns whether one was removed.
    pub fn remove_normalized(&mut self, tag: Option<String>) -> (r: bool)
        ensures
            r == old(self)@.carries(text::opt_text(tag)),
            final(self)@ == old(self)@.untagged(text::opt_text(tag)),
    {
        let t = match tag {
            Some(t) => t,
            None => return false,
        };
        let ghost all = text::texts(self.tags@);
        let ghost mut seen: int = 0;
        let mut i: usize = 0;
        let mut removed = false;
        proof {
            assert(all.take(0) =~= Seq::<Seq<char>>::empty());
            assert(text::texts(self.tags@) =~= text::dropping(all.take(0), t@) + all.skip(0));
        }
        while i < self.tags.len()
            invariant
                0 <= seen <= all.len(),
                i == text::dropping(all.take(seen), t@).len(),
                text::texts(self.tags@) == text::dropping(all.take(seen), t@) + all.skip(seen),
                removed == all.take(seen).contains(t@),
                self@ == (TaskModel { tags: text::texts(self.tags@), ..old(self)@ }),
            decreases self.tags@.len() - i,
        {
            proof {
                assert(text::texts(self.tags@)[i as int] == all[seen]);
                assert(all.take(seen + 1).drop_last() =~= all.take(seen));
                assert(all.take(seen + 1).last() == all[seen]);
                assert(forall|j: int|
                    0 <= j < seen ==> #[trigger] all.take(seen)[j] == all.take(seen + 1)[j]);
            }
            let ghost before = text::texts(self.tags@);
            if text::same_text(self.tags[i].as_str(), t.as_str()) {
                self.tags.remove(i);
                removed = true;
                proof {
                    assert(text::texts(self.tags@) =~= before.remove(i as int));
                    assert(text::texts(self.tags@) =~= text::dropping(all.take(seen + 1), t@) + all.skip(
                        seen + 1,
                    ));
                    assert(all.take(seen + 1)[seen] == t@);
                }
            } else {
                i += 1;
                proof {
                    assert(text::texts(self.tags@) =~= text::dropping(all.take(seen + 1), t@) + all.skip(
                        seen + 1,
                    ));
                    if all.take(seen + 1).contains(t@) {
                        let j = choose|j: int|
                            0 <= j < seen + 1 && #[trigger] all.take(seen + 1)[j] == t@;
                        assert(all.take(seen)[j] == t@);
                    }
                }
            }
            proof {
                seen = seen + 1;
            }
        }
        proof {
            assert(all.skip(seen).len() == 0);
            assert(all.take(seen) =~= all);
            assert(text::texts(self.tags@) =~= text::dropping(all, t@));
        }
        removed
    }

    /// Remove a tag. Returns whether one was removed.
    pub fn remove_tag(&mut self, tag: &str) -> (r: bool)
        ensures
            r == old(self)@.carries(tag_of(tag@)),
            final(self)@ == old(self)@.untagged(tag_of(tag@)),
            text::trim(tag@).len() == 0 ==> !r && final(self)@ == old(self)@,
    {
        self.remove_normalized(normalize_tag(tag))
    }

    /// Whether the task carries a normalized tag.
    pub fn has_normalized(&self, tag: &Option<String>) -> (r: bool)
        ensures
            r == self@.carries(text::opt_text(*tag)),
    {
        match tag {
            Some(t) => text::contains_text(&self.tags, t.as_str()),
            None => false,
        }
    }

    /// Whether the task carries a tag.
    pub fn has_tag(&self, tag: &str) -> (r: bool)
        ensures
            r == self@.carries(tag_of(tag@)),
            text::trim(tag@).len() == 0 ==> !r,
    {
        self.has_normalized(&normalize_tag(tag))
    }

    /// Mark freshly relevant at `now`.
    pub fn touch_at(&mut self, now: Timestamp)
        ensures
            final(self)@ == old(self)@.touched(now),
    {
        self.last_updated = now;
    }

    /// Mark freshly relevant (revive / "still relevant"): resets age to Hot.
    pub fn touch(&mut self)
        ensures
            exists|ts: u64| final(self)@ == #[trigger] old(self)@.touched(ts),
    {
        self.touch_at(now())
    }

    /// Age in seconds at reference time `now_ts`. Saturates so a clock that
    /// briefly runs backwards yields age 0 rather than underflowing.
    pub fn age(&self, now_ts: Timestamp) -> (r: u64)
        ensures
            r == self@.age(now_ts),
    {
        now_ts.saturating_sub(self.last_updated)
    }

    /// Derived lifecycle status. Bands are half-open and contiguous, so every
    /// possible age maps to exactly one status.
    pub fn status(&self, t: &Thresholds, now_ts: Timestamp) -> (r: Status)
        ensures
            r == self@.status(*t, now_ts),
    {
        let age: u64 = self.age(now_ts);
        if age < t.hot_window {
            Status::Hot
        } else if age < t.dormant_after {
            Status::Decaying
        } else if age - t.dormant_after < t.bubble_after {
            Status::Dormant
        } else {
            Status::Bubbling
        }
    }

    /// The greatest id in a task list, or zero when it is empty.
    pub fn last_id(tasks: &[Task]) -> (r: u64)
        ensures
            r == max_id(task_models(tasks@)),
    {
        let mut max: u64 = 0;
        let mut i: usize = 0;
        let ghost all = task_models(tasks@);
        while i < tasks.len()
            invariant
                i <= tasks@.len(),
                all == task_models(tasks@),
                max == max_id(all.take(i as int)),
            decreases tasks@.len() - i,
        {
            assert(all.take(i + 1).drop_last() =~= all.take(i as int));
            assert(all.take(i + 1).last() == tasks@[i as int]@);
            if tasks[i].id > max {
                max = tasks[i].id;
            }
            i += 1;
        }
        assert(all.take(i as int) =~= all);
        max
    }

    /// Next free id for a task list (max + 1, or 1 when empty).
    pub fn next_id(tasks: &[Task]) -> (r: u64)
        requires
            max_id(task_models(tasks@)) < u64::MAX,
        ensures
            r == max_id(task_models(tasks@)) + 1,
    {
        Task::last_id(tasks) + 1
    }

    /// (completed_subtasks, total_subtasks).
    pub fn progress(&self) -> (r: (usize, usize))
        ensures
            r.0 == self@.subtasks_done(),
            r.1 == self@.subtasks.len(),
            r.0 <= r.1,
    {
        let mut done: usize = 0;
        let mut i: usize = 0;
        let ghost all = self@.subtasks;
        while i < self.subtasks.len()
            invariant
                i <= self.subtasks@.len(),
                all == subtask_models(self.subtasks@),
                done == done_count(all.take(i as int)),
                done <= i,
            decreases self.subtasks@.len() - i,
        {
            assert(all.take(i + 1).drop_last() =~= all.take(i as int));
            assert(all.take(i + 1).last() == self.subtasks@[i as int]@);
            if self.subtasks[i].done {
                done += 1;
            }
            i += 1;
        }
        assert(all.take(i as int) =~= all);
        (done, self.subtasks.len())
    }
}

/// A freshly touched task is Hot, whatever it was before.
pub proof fn touched_task_is_hot(t: TaskModel, th: Thresholds, now: u64)
    requires
        th.hot_window > 0,
    ensures
        t.touched(now).status(th, now) == Status::Hot,
{
}

/// More age never yields a hotter band, however the thresholds are set.
pub proof fn status_monotonic_in_age(t: TaskModel, th: Thresholds, earlier: u64, later: u64)
    requires
        earlier <= later,
    ensures
        t.status(th, earlier).rank() <= t.status(th, later).rank(),
{
}

/// With ordered thresholds the four bands are half-open, contiguous and cover
/// every age.
pub proof fn bands_partition_ages(th: Thresholds, age: int)
    requires
        th.hot_window <= th.dormant_after,
    ensures
        th.band(age) == Status::Hot <==> age < th.hot_window,
        th.band(age) == Status::Decaying <==> th.hot_window <= age < th.dormant_after,
        th.band(age) == Status::Dormant <==> th.dormant_after <= age < th.dormant_after
            + th.bubble_after,
        th.band(age) == Status::Bubbling <==> th.dormant_after + th.bubble_after <= age,
{
}

/// A clock that stands before the last update counts as no age at all.
pub proof fn backwards_clock_has_no_age(t: TaskModel, now: u64)
    requires
        now <= t.last_updated,
    ensures
        t.age(now) == 0,
{
}

/// Nothing that was dropped remains, and everything else does.
pub proof fn dropping_keeps_the_rest(list: Seq<Seq<char>>, t: Seq<char>)
    ensures
        !text::dropping(list, t).contains(t),
        forall|x: Seq<char>|
            x != t ==> (#[trigger] text::dropping(list, t).contains(x) <==> list.contains(x)),
        list.no_duplicates() ==> text::dropping(list, t).no_duplicates(),
        !list.contains(t) ==> text::dropping(list, t) == list,
    decreases list.len(),
{
    let d = text::dropping(list, t);
    if list.len() > 0 {
        let init = list.drop_last();
        let rest = text::dropping(init, t);
        dropping_keeps_the_rest(init, t);
        assert forall|x: Seq<char>| x != t implies (#[trigger] d.contains(x) <==> list.contains(x)) by {
            if list.contains(x) {
                let j = choose|j: int| 0 <= j < list.len() && list[j] == x;
                if j < list.len() - 1 {
                    assert(init[j] == x);
                    assert(rest.contains(x));
                    let k = choose|k: int| 0 <= k < rest.len() && rest[k] == x;
                    assert(d[k] == x);
                } else {
                    assert(d[d.len() - 1] == x);
                }
            }
            if d.contains(x) {
                let k = choose|k: int| 0 <= k < d.len() && d[k] == x;
                if k < rest.len() {
                    assert(rest[k] == x);
                    assert(rest.contains(x));
                    let j = choose|j: int| 0 <= j < init.len() && init[j] == x;
                    assert(list[j] == x);
                } else {
                    assert(list[list.len() - 1] == x);
                }
            }
        }
        if d.contains(t) {
            let k = choose|k: int| 0 <= k < d.len() && d[k] == t;
            assert(k < rest.len());
            assert(rest[k] == t);
            assert(rest.contains(t));
        }
        if list.no_duplicates() {
            assert(init.no_duplicates());
            if list.last() != t {
                assert forall|i: int, j: int|
                    0 <= i < d.len() && 0 <= j < d.len() && i != j implies d[i] != d[j] by {
                    let low = if i < j {
                        i
                    } else {
                        j
                    };
                    let high = if i < j {
                        j
                    } else {
                        i
                    };
                    if high == d.len() - 1 && d[low] == d[high] {
                        assert(rest[low] == list.last());
                        assert(rest.contains(list.last()));
                        assert(init.contains(list.last()));
                        let k = choose|k: int| 0 <= k < init.len() && init[k] == list.last();
                        assert(list[k] == list[list.len() - 1]);
                    } else if high < d.len() - 1 {
                        assert(rest[low] == d[low]);
                        assert(rest[high] == d[high]);
                    }
                }
            }
        }
        if !list.contains(t) {
            assert(list[list.len() - 1] != t);
            if init.contains(t) {
                let j = choose|j: int| 0 <= j < init.len() && init[j] == t;
                assert(list[j] == t);
            }
            assert(d =~= list);
        }
    }
}

/// A task never holds the same tag twice: adding and removing tags keep its tags
/// distinct.
pub proof fn tags_stay_distinct(t: TaskModel, tag: Option<Seq<char>>)
    requires
        t.tags.no_duplicates(),
    ensures
        t.tagged(tag).tags.no_duplicates(),
        t.untagged(tag).tags.no_duplicates(),
{
    if let Some(x) = tag {
        dropping_keeps_the_rest(t.tags, x);
    }
}

/// A tag that was added is carried, one that was removed is not, and neither
/// operation affects any other tag.
pub proof fn tags_answer_for_what_was_done(t: TaskModel, tag: Seq<char>, other: Seq<char>)
    requires
        tag != other,
    ensures
        t.tagged(Some(tag)).carries(Some(tag)),
        !t.untagged(Some(tag)).carries(Some(tag)),
        t.tagged(Some(tag)).carries(Some(other)) == t.carries(Some(other)),
        t.untagged(Some(tag)).carries(Some(other)) == t.carries(Some(other)),
{
    dropping_keeps_the_rest(t.tags, tag);
    if !t.tags.contains(tag) {
        let after = t.tagged(Some(tag)).tags;
        assert(after[after.len() - 1] == tag);
        if t.tags.contains(other) {
            let j = choose|j: int| 0 <= j < t.tags.len() && t.tags[j] == other;
            assert(after[j] == other);
        }
        if after.contains(other) {
            let j = choose|j: int| 0 <= j < after.len() && after[j] == other;
            assert(t.tags[j] == other);
        }
    }
}

/// Removing a tag undoes adding it, on a task that did not carry it.
pub proof fn untagging_undoes_tagging(t: TaskModel, tag: Seq<char>)
    requires
        !t.carries(Some(tag)),
    ensures
        t.tagged(Some(tag)).untagged(Some(tag)) == t,
{
    dropping_keeps_the_rest(t.tags, tag);
    assert(t.tags.push(tag).drop_last() =~= t.tags);
}

/// Tagging and noting leave the task's age alone; only touching resets it.
pub proof fn tagging_and_noting_do_not_touch(
    t: TaskModel,
    tag: Option<Seq<char>>,
    text: Seq<char>,
    now: u64,
)
    ensures
        t.tagged(tag).last_updated == t.last_updated,
        t.untagged(tag).last_updated == t.last_updated,
        t.noted(text, now).last_updated == t.last_updated,
{
}

/// The next id is greater than every id in the list, so it is not in use.
pub proof fn next_id_is_unused(tasks: Seq<TaskModel>, i: int)
    requires
        0 <= i < tasks.len(),
    ensures
        tasks[i].id < max_id(tasks) + 1,
    decreases tasks.len(),
{
    if i < tasks.len() - 1 {
        next_id_is_unused(tasks.drop_last(), i);
    }
}

/// Normalizing a normalized tag gives it back, for every text that is ASCII once
/// trimmed.
pub proof fn normalized_tags_stay(s: Seq<char>)
    requires
        text::all_ascii(text::trim(s)),
    ensures
        ascii_tag_of(s) matches Some(t) ==> text::all_ascii(text::trim(t)) && ascii_tag_of(t)
            == Some(t),
{
    let u = text::trim(s);
    let t = text::ascii_lowered(u);
    if u.len() > 0 {
        text::trimming_is_idempotent(s);
        assert forall|i: int| 0 <= i < t.len() implies #[trigger] t[i] <= '\x7f' by {
            assert(u[i] <= '\x7f');
        }
        assert(!text::is_white(t[0])) by {
            assert(t[0] == text::ascii_lower(u[0]));
        }
        assert(!text::is_white(t.last())) by {
            assert(t.last() == text::ascii_lower(u[u.len() - 1]));
        }
        assert(text::trim(t) == t);
        assert(text::ascii_lowered(t) =~= t);
    }
}

/// Normalizing a normalized tag gives it back, whatever the text, as long as
/// lowercasing what is lowercased changes nothing and leaves no white space at the
/// ends.
pub proof fn normalized_tags_stay_if_lowercase_does(s: Seq<char>)
    requires
        ({
            let l = text::lowercase(text::trim(s));
            text::lowercase(l) == l && text::trim(l) == l
        }),
    ensures
        tag_of(s) matches Some(t) ==> tag_of(t) == Some(t),
{
}

} // verus!
