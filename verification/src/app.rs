//! The interactive list: what it shows, and what each interaction does to it.
//!
//! Nothing here performs I/O: an operation changes the state, and what has to be
//! saved, loaded or written to the terminal comes back as an effect.

use crate::config::{Config, ConfigModel};
use crate::model;
use crate::model::{Status, Task, TaskModel, Thresholds, Timestamp};
use crate::order;
use crate::settings::{CfgField, Scope};
use crate::text;
use crate::theme;
use crate::theme::Theme;
use std::collections::HashSet;
use vstd::prelude::*;
use vstd::string::*;

verus! {

broadcast use vstd::std_specs::hash::group_hash_axioms;

/// What the keyboard currently drives.
pub enum Mode {
    Normal,
    Help,
    Add,
    Edit(u64),
    EditSub(u64, usize),
    EditNote(u64, usize),
    AddSub(u64),
    AddNote(u64),
    EditTags(u64),
    Search,
    Config,
    EditCfg(CfgField),
    Boards { names: Vec<String>, sel: usize },
    AddBoard,
    RenameBoard { old_name: String },
    ConfirmDeleteBoard { name: String },
}

/// What a mode holds.
pub enum ModeModel {
    Normal,
    Help,
    Add,
    Edit(u64),
    EditSub(u64, usize),
    EditNote(u64, usize),
    AddSub(u64),
    AddNote(u64),
    EditTags(u64),
    Search,
    Config,
    EditCfg(CfgField),
    Boards { names: Seq<Seq<char>>, sel: usize },
    AddBoard,
    RenameBoard { old_name: Seq<char> },
    ConfirmDeleteBoard { name: Seq<char> },
}

impl View for Mode {
    type V = ModeModel;

    open spec fn view(&self) -> ModeModel {
        match self {
            Mode::Normal => ModeModel::Normal,
            Mode::Help => ModeModel::Help,
            Mode::Add => ModeModel::Add,
            Mode::Edit(id) => ModeModel::Edit(*id),
            Mode::EditSub(id, si) => ModeModel::EditSub(*id, *si),
            Mode::EditNote(id, ni) => ModeModel::EditNote(*id, *ni),
            Mode::AddSub(id) => ModeModel::AddSub(*id),
            Mode::AddNote(id) => ModeModel::AddNote(*id),
            Mode::EditTags(id) => ModeModel::EditTags(*id),
            Mode::Search => ModeModel::Search,
            Mode::Config => ModeModel::Config,
            Mode::EditCfg(f) => ModeModel::EditCfg(*f),
            Mode::Boards { names, sel } => ModeModel::Boards { names: text::texts(names@), sel: *sel },
            Mode::AddBoard => ModeModel::AddBoard,
            Mode::RenameBoard { old_name } => ModeModel::RenameBoard { old_name: old_name@ },
            Mode::ConfirmDeleteBoard { name } => ModeModel::ConfirmDeleteBoard { name: name@ },
        }
    }
}

/// The three task sections. Dormant and Done are fully separate views, not a
/// filter over the active list; Tab cycles Active, Dormant, Done.
#[derive(Debug, Clone, Copy, PartialEq, Eq, Structural)]
pub enum Section {
    Active,
    Dormant,
    Done,
}

impl Section {
    /// The section that Tab leads to.
    pub open spec fn following(self) -> Section {
        match self {
            Section::Active => Section::Dormant,
            Section::Dormant => Section::Done,
            Section::Done => Section::Active,
        }
    }

    /// The section that Tab leads to.
    pub fn next(self) -> (r: Section)
        ensures
            r == self.following(),
    {
        match self {
            Section::Active => Section::Dormant,
            Section::Dormant => Section::Done,
            Section::Done => Section::Active,
        }
    }

    /// Whether the section shows a task. Done tasks live only in Done; Active and
    /// Dormant split the rest by status.
    pub open spec fn shows(self, t: TaskModel, th: Thresholds, now: u64) -> bool {
        match self {
            Section::Done => t.done,
            Section::Dormant => !t.done && t.status(th, now) == Status::Dormant,
            Section::Active => !t.done && t.status(th, now) != Status::Dormant,
        }
    }
}

/// A rendered line: a task, one of its subtasks, or one of its notes (indices
/// into the task list).
#[derive(Debug, Clone, Copy, PartialEq, Eq, Structural)]
pub enum Row {
    Task(usize),
    Sub(usize, usize),
    Note(usize, usize),
}

/// Place of a status in a section: Hot and Bubbling rise.
pub open spec fn priority(s: Status) -> int {
    match s {
        Status::Hot => 0,
        Status::Bubbling => 1,
        Status::Decaying => 2,
        Status::Dormant => 3,
    }
}

/// Place of a status in a section: Hot and Bubbling rise.
pub fn sort_rank(s: Status) -> (r: u8)
    ensures
        r == priority(s),
{
    match s {
        Status::Hot => 0,
        Status::Bubbling => 1,
        Status::Decaying => 2,
        Status::Dormant => 3,
    }
}

/// The state of the interactive list.
pub struct App {
    pub cfg: Config,
    pub board: String,
    pub theme: Theme,
    pub tasks: Vec<Task>,
    pub selected: usize,
    pub mode: Mode,
    pub input: String,
    /// Char index into `input`.
    pub cursor: usize,
    pub status: Option<String>,
    pub view: Section,
    pub expanded: HashSet<u64>,
    pub cfg_sel: usize,
    pub cfg_scope: Scope,
    /// Saw a lone `g`, waiting for the second in `gg`.
    pub g_pending: bool,
    pub frame: u64,
    pub quit: bool,
}

/// What the state holds.
#[verifier::ext_equal]
pub struct AppModel {
    pub cfg: ConfigModel,
    pub board: Seq<char>,
    pub theme: Theme,
    pub tasks: Seq<TaskModel>,
    pub selected: usize,
    pub mode: ModeModel,
    pub input: Seq<char>,
    pub cursor: usize,
    pub status: Option<Seq<char>>,
    pub view: Section,
    pub expanded: Set<u64>,
    pub cfg_sel: usize,
    pub cfg_scope: Scope,
    pub g_pending: bool,
    pub frame: u64,
    pub quit: bool,
}

impl View for App {
    type V = AppModel;

    open spec fn view(&self) -> AppModel {
        AppModel {
            cfg: self.cfg@,
            board: self.board@,
            theme: self.theme,
            tasks: model::task_models(self.tasks@),
            selected: self.selected,
            mode: self.mode@,
            input: self.input@,
            cursor: self.cursor,
            status: text::opt_text(self.status),
            view: self.view,
            expanded: self.expanded@,
            cfg_sel: self.cfg_sel,
            cfg_scope: self.cfg_scope,
            g_pending: self.g_pending,
            frame: self.frame,
            quit: self.quit,
        }
    }
}

/// The rows of one task: itself, and its subtasks and notes if it is expanded.
pub open spec fn block(tasks: Seq<TaskModel>, expanded: Set<u64>, ti: usize) -> Seq<Row> {
    let t = tasks[ti as int];
    if expanded.contains(t.id) {
        seq![Row::Task(ti)] + Seq::new(t.subtasks.len(), |si: int| Row::Sub(ti, si as usize))
            + Seq::new(t.notes.len(), |ni: int| Row::Note(ti, ni as usize))
    } else {
        seq![Row::Task(ti)]
    }
}

/// The rows of some tasks, one after the other.
pub open spec fn flattened(tasks: Seq<TaskModel>, expanded: Set<u64>, shown: Seq<usize>) -> Seq<Row>
    decreases shown.len(),
{
    if shown.len() == 0 {
        Seq::empty()
    } else {
        flattened(tasks, expanded, shown.drop_last()) + block(tasks, expanded, shown.last())
    }
}

/// The first task with an id.
pub open spec fn find_id(tasks: Seq<TaskModel>, id: u64) -> Option<usize>
    decreases tasks.len(),
{
    if tasks.len() == 0 {
        None
    } else {
        match find_id(tasks.drop_last(), id) {
            Some(i) => Some(i),
            None => if tasks.last().id == id {
                Some((tasks.len() - 1) as usize)
            } else {
                None
            },
        }
    }
}

/// The first row that is the task with an id.
pub open spec fn find_row(tasks: Seq<TaskModel>, rows: Seq<Row>, id: u64) -> Option<usize>
    decreases rows.len(),
{
    if rows.len() == 0 {
        None
    } else {
        match find_row(tasks, rows.drop_last(), id) {
            Some(i) => Some(i),
            None => if rows.last() matches Row::Task(ti) && tasks[ti as int].id == id {
                Some((rows.len() - 1) as usize)
            } else {
                None
            },
        }
    }
}

/// `selected`, moved back onto the last of `rows` rows if it is past it.
pub open spec fn clamped(selected: usize, rows: nat) -> usize {
    if selected < rows {
        selected
    } else if rows == 0 {
        0
    } else {
        (rows - 1) as usize
    }
}

impl AppModel {
    /// The state at startup.
    pub open spec fn started(cfg: ConfigModel, tasks: Seq<TaskModel>) -> AppModel {
        AppModel {
            cfg,
            board: cfg.active_board,
            theme: theme::theme_named(cfg.effective(cfg.active_board).theme),
            tasks,
            selected: 0,
            mode: ModeModel::Normal,
            input: Seq::empty(),
            cursor: 0,
            status: None,
            view: Section::Active,
            expanded: Set::empty(),
            cfg_sel: 0,
            cfg_scope: Scope::Global,
            g_pending: false,
            frame: 0,
            quit: false,
        }
    }

    /// The lifecycle thresholds of the current board.
    pub open spec fn thresholds(self) -> Thresholds {
        self.cfg.effective(self.board).thresholds()
    }

    /// What the tasks are sorted by: the priority of their status, then recency.
    pub open spec fn sort_keys(self, now: u64) -> Seq<(u64, u64)> {
        Seq::new(
            self.tasks.len(),
            |i: int|
                (
                    priority(self.tasks[i].status(self.thresholds(), now)) as u64,
                    (u64::MAX - self.tasks[i].last_updated) as u64,
                ),
        )
    }

    /// Which tasks the current section shows.
    pub open spec fn shown(self, now: u64) -> Seq<bool> {
        Seq::new(self.tasks.len(), |i: int| self.view.shows(self.tasks[i], self.thresholds(), now))
    }

    /// The tasks of the current section, in the order in which they are listed.
    pub open spec fn visible(self, now: u64) -> Seq<usize> {
        order::arrangement(self.sort_keys(now), self.shown(now))
    }

    /// The rows that are listed.
    pub open spec fn rows(self, now: u64) -> Seq<Row> {
        flattened(self.tasks, self.expanded, self.visible(now))
    }

    /// The highlighted row.
    pub open spec fn selected_row(self, now: u64) -> Option<Row> {
        if self.selected < self.rows(now).len() {
            Some(self.rows(now)[self.selected as int])
        } else {
            None
        }
    }

    /// The task of the highlighted row, if that is a task row.
    pub open spec fn selected_task(self, now: u64) -> Option<usize> {
        match self.selected_row(now) {
            Some(Row::Task(ti)) => Some(ti),
            _ => None,
        }
    }

    /// The task that the highlighted row belongs to.
    pub open spec fn row_task(self, now: u64) -> Option<usize> {
        match self.selected_row(now) {
            Some(Row::Task(ti)) => Some(ti),
            Some(Row::Sub(ti, _)) => Some(ti),
            Some(Row::Note(ti, _)) => Some(ti),
            None => None,
        }
    }

    /// Whether anything that moves is on screen.
    pub open spec fn has_animation(self, now: u64) -> bool {
        exists|p: int|
            0 <= p < self.visible(now).len() && {
                let st = self.tasks[#[trigger] self.visible(now)[p] as int].status(
                    self.thresholds(),
                    now,
                );
                st == Status::Hot || st == Status::Bubbling
            }
    }
}

/// Rows point into the task list.
pub open spec fn row_in_range(tasks: Seq<TaskModel>, r: Row) -> bool {
    match r {
        Row::Task(ti) => ti < tasks.len(),
        Row::Sub(ti, si) => ti < tasks.len() && si < tasks[ti as int].subtasks.len(),
        Row::Note(ti, ni) => ti < tasks.len() && ni < tasks[ti as int].notes.len(),
    }
}

/// Whether a list of tasks and their parts can be indexed by machine words.
pub open spec fn indexable(tasks: Seq<TaskModel>) -> bool {
    &&& tasks.len() <= usize::MAX
    &&& forall|i: int|
        0 <= i < tasks.len() ==> (#[trigger] tasks[i]).subtasks.len() <= usize::MAX
            && tasks[i].notes.len() <= usize::MAX
}

/// The rows of some tasks point into the task list.
proof fn flattened_in_range(tasks: Seq<TaskModel>, expanded: Set<u64>, shown: Seq<usize>)
    requires
        indexable(tasks),
        forall|p: int| 0 <= p < shown.len() ==> (#[trigger] shown[p]) < tasks.len(),
    ensures
        forall|q: int|
            0 <= q < flattened(tasks, expanded, shown).len() ==> row_in_range(
                tasks,
                #[trigger] flattened(tasks, expanded, shown)[q],
            ),
    decreases shown.len(),
{
    if shown.len() > 0 {
        flattened_in_range(tasks, expanded, shown.drop_last());
        let rest = flattened(tasks, expanded, shown.drop_last());
        let b = block(tasks, expanded, shown.last());
        let ti = shown.last();
        assert(shown[shown.len() - 1] == ti);
        let t = tasks[ti as int];
        assert forall|q: int| 0 <= q < (rest + b).len() implies row_in_range(
            tasks,
            #[trigger] (rest + b)[q],
        ) by {
            if q < rest.len() {
                assert((rest + b)[q] == rest[q]);
            } else {
                let k = q - rest.len();
                assert((rest + b)[q] == b[k]);
                if k > t.subtasks.len() {
                    assert(b[k] == Row::Note(ti, (k - 1 - t.subtasks.len()) as usize));
                } else if k > 0 {
                    assert(b[k] == Row::Sub(ti, (k - 1) as usize));
                }
            }
        }
    }
}

/// Every listed row points into the task list.
pub proof fn rows_point_at_tasks(s: AppModel, now: u64)
    requires
        indexable(s.tasks),
    ensures
        forall|q: int|
            0 <= q < s.rows(now).len() ==> row_in_range(s.tasks, #[trigger] s.rows(now)[q]),
{
    order::arrangement_arranges(s.sort_keys(now), s.shown(now));
    flattened_in_range(s.tasks, s.expanded, s.visible(now));
}

impl App {
    /// What Verus knows of the lengths of vectors, over what they hold.
    proof fn lengths_fit(tasks: &Vec<Task>)
        ensures
            indexable(model::task_models(tasks@)),
    {
        assert(tasks.len() == tasks@.len());
        assert forall|i: int| 0 <= i < tasks@.len() implies (#[trigger] model::task_models(tasks@)[i]).subtasks.len()
            <= usize::MAX && model::task_models(tasks@)[i].notes.len() <= usize::MAX by {
            assert(tasks@[i].subtasks.len() == tasks@[i].subtasks@.len());
            assert(tasks@[i].notes.len() == tasks@[i].notes@.len());
        }
    }

    /// The state at startup.
    pub fn new(cfg: Config, tasks: Vec<Task>) -> (r: App)
        ensures
            r@ == AppModel::started(cfg@, model::task_models(tasks@)),
    {
        let board = cfg.active_board.clone();
        let theme = Theme::named(cfg.effective(board.as_str()).theme.as_str());
        App {
            cfg,
            board,
            theme,
            tasks,
            selected: 0,
            mode: Mode::Normal,
            input: String::new(),
            cursor: 0,
            status: None,
            view: Section::Active,
            expanded: HashSet::new(),
            cfg_sel: 0,
            cfg_scope: Scope::Global,
            g_pending: false,
            frame: 0,
            quit: false,
        }
    }

    /// Config with the active board's overrides applied: the source of truth
    /// for thresholds and theme.
    pub fn ecfg(&self) -> (r: Config)
        ensures
            r@ == self@.cfg.effective(self@.board),
    {
        self.cfg.effective(self.board.as_str())
    }

    /// Task indices belonging to the current section, ordered by lifecycle
    /// priority (Hot/Bubbling rise) and recency within a band.
    pub fn visible_at(&self, now: Timestamp) -> (r: Vec<usize>)
        ensures
            r@ == self@.visible(now),
            forall|p: int| 0 <= p < r@.len() ==> (#[trigger] r@[p]) < self.tasks@.len(),
    {
        let th = self.ecfg().thresholds();
        let mut keys: Vec<(u64, u64)> = Vec::new();
        let mut keep: Vec<bool> = Vec::new();
        let mut i: usize = 0;
        while i < self.tasks.len()
            invariant
                i <= self.tasks@.len(),
                th == self@.thresholds(),
                keys@.len() == i,
                keep@.len() == i,
                forall|j: int| 0 <= j < i ==> #[trigger] keys@[j] == self@.sort_keys(now)[j],
                forall|j: int| 0 <= j < i ==> #[trigger] keep@[j] == self@.shown(now)[j],
            decreases self.tasks@.len() - i,
        {
            let t = &self.tasks[i];
            assert(self@.tasks[i as int] == t@);
            let st = t.status(&th, now);
            let shown = match self.view {
                Section::Done => t.done,
                Section::Dormant => !t.done && st == Status::Dormant,
                Section::Active => !t.done && st != Status::Dormant,
            };
            keys.push((sort_rank(st) as u64, u64::MAX - t.last_updated));
            keep.push(shown);
            i += 1;
        }
        assert(keys@ =~= self@.sort_keys(now));
        assert(keep@ =~= self@.shown(now));
        order::arrange(&keys, &keep)
    }

    /// Task indices belonging to the current section, as of now.
    pub fn visible(&self) -> (r: Vec<usize>)
        ensures
            exists|ts: u64| r@ == #[trigger] self@.visible(ts),
    {
        self.visible_at(model::now())
    }

    /// Flattened rows: each visible task, followed by its subtasks and notes if
    /// expanded.
    pub fn rows_at(&self, now: Timestamp) -> (r: Vec<Row>)
        ensures
            r@ == self@.rows(now),
            forall|q: int| 0 <= q < r@.len() ==> row_in_range(self@.tasks, #[trigger] r@[q]),
    {
        let mut out: Vec<Row> = Vec::new();
        let visible = self.visible_at(now);
        let mut p: usize = 0;
        assert(visible@.take(0) =~= Seq::<usize>::empty());
        while p < visible.len()
            invariant
                p <= visible@.len(),
                forall|k: int| 0 <= k < visible@.len() ==> (#[trigger] visible@[k]) < self.tasks@.len(),
                out@ == flattened(self@.tasks, self@.expanded, visible@.take(p as int)),
            decreases visible@.len() - p,
        {
            let ti: usize = visible[p];
            let t = &self.tasks[ti];
            let ghost before = out@;
            let ghost m = self@.tasks[ti as int];
            assert(m == t@);
            out.push(Row::Task(ti));
            if self.expanded.contains(&t.id) {
                let mut si: usize = 0;
                assert(out@ =~= before + (seq![Row::Task(ti)] + Seq::new(
                    0,
                    |si: int| Row::Sub(ti, si as usize),
                )));
                while si < t.subtasks.len()
                    invariant
                        si <= t.subtasks@.len(),
                        out@ == before + (seq![Row::Task(ti)] + Seq::new(
                            si as nat,
                            |si: int| Row::Sub(ti, si as usize),
                        )),
                    decreases t.subtasks@.len() - si,
                {
                    out.push(Row::Sub(ti, si));
                    si += 1;
                    assert(out@ =~= before + (seq![Row::Task(ti)] + Seq::new(
                        si as nat,
                        |si: int| Row::Sub(ti, si as usize),
                    )));
                }
                let ghost subs = seq![Row::Task(ti)] + Seq::new(
                    si as nat,
                    |si: int| Row::Sub(ti, si as usize),
                );
                let mut ni: usize = 0;
                assert(out@ =~= before + (subs + Seq::new(0, |ni: int| Row::Note(ti, ni as usize))));
                while ni < t.notes.len()
                    invariant
                        ni <= t.notes@.len(),
                        out@ == before + (subs + Seq::new(
                            ni as nat,
                            |ni: int| Row::Note(ti, ni as usize),
                        )),
                    decreases t.notes@.len() - ni,
                {
                    out.push(Row::Note(ti, ni));
                    ni += 1;
                    assert(out@ =~= before + (subs + Seq::new(
                        ni as nat,
                        |ni: int| Row::Note(ti, ni as usize),
                    )));
                }
                assert(subs + Seq::new(ni as nat, |ni: int| Row::Note(ti, ni as usize)) =~= block(
                    self@.tasks,
                    self@.expanded,
                    ti,
                ));
            }
            assert(out@ =~= before + block(self@.tasks, self@.expanded, ti));
            assert(visible@.take(p + 1).drop_last() =~= visible@.take(p as int));
            assert(visible@.take(p + 1).last() == ti);
            p += 1;
        }
        assert(visible@.take(p as int) =~= visible@);
        proof {
            App::lengths_fit(&self.tasks);
            rows_point_at_tasks(self@, now);
            assert(out@ == self@.rows(now));
            assert forall|q: int| 0 <= q < out@.len() implies row_in_range(
                self@.tasks,
                #[trigger] out@[q],
            ) by {
                assert(self@.rows(now)[q] == out@[q]);
            }
        }
        out
    }

    /// The rows that are listed as of now.
    pub fn rows(&self) -> (r: Vec<Row>)
        ensures
            exists|ts: u64| r@ == #[trigger] self@.rows(ts),
    {
        self.rows_at(model::now())
    }
}

/// A task whose tags are those that some words stand for, a leading `#` of each
/// being dropped.
pub open spec fn retagged(t: TaskModel, words: Seq<Seq<char>>) -> TaskModel
    decreases words.len(),
{
    if words.len() == 0 {
        TaskModel { tags: Seq::empty(), ..t }
    } else {
        retagged(t, words.drop_last()).tagged(model::tag_of(text::without_hashes(words.last())))
    }
}

/// Whether a task matches a lowercased query: by its lowercased title, or by one
/// of its tags.
pub open spec fn matches_query(t: TaskModel, title: Seq<char>, query: Seq<char>) -> bool {
    ||| text::occurs(title, query)
    ||| exists|k: int| 0 <= k < t.tags.len() && text::occurs(#[trigger] t.tags[k], query)
}

/// Whether a row is a task that matches a lowercased query, given the lowercased
/// titles of all tasks.
pub open spec fn row_matches(
    tasks: Seq<TaskModel>,
    titles: Seq<Seq<char>>,
    r: Row,
    query: Seq<char>,
) -> bool {
    r matches Row::Task(ti) && matches_query(tasks[ti as int], titles[ti as int], query)
}

/// The first row that matches.
pub open spec fn first_match(
    tasks: Seq<TaskModel>,
    titles: Seq<Seq<char>>,
    rows: Seq<Row>,
    query: Seq<char>,
) -> Option<usize>
    decreases rows.len(),
{
    if rows.len() == 0 {
        None
    } else {
        match first_match(tasks, titles, rows.drop_last(), query) {
            Some(i) => Some(i),
            None => if row_matches(tasks, titles, rows.last(), query) {
                Some((rows.len() - 1) as usize)
            } else {
                None
            },
        }
    }
}

/// The lowercased titles of some tasks.
pub open spec fn lowered_titles(tasks: Seq<TaskModel>) -> Seq<Seq<char>> {
    Seq::new(tasks.len(), |i: int| text::lowercase(tasks[i].title))
}

impl AppModel {
    /// The state with task `i` replaced.
    pub open spec fn with_task(self, i: usize, t: TaskModel) -> AppModel {
        AppModel { tasks: self.tasks.update(i as int, t), ..self }
    }

    /// The state with the highlight on the task with an id, or where it was if
    /// that task is not listed.
    pub open spec fn select_task(self, id: u64, now: u64) -> AppModel {
        AppModel {
            selected: match find_row(self.tasks, self.rows(now), id) {
                Some(i) => i,
                None => clamped(self.selected, self.rows(now).len()),
            },
            ..self
        }
    }

    /// A new task under the next free id, the highlight on the first row.
    pub open spec fn add_task(self, title: Seq<char>, now: u64) -> AppModel {
        AppModel {
            tasks: self.tasks.push(
                model::new_task((model::max_id(self.tasks) + 1) as u64, title, now),
            ),
            selected: 0,
            ..self
        }
    }

    /// A task retitled and touched.
    pub open spec fn apply_edit(self, id: u64, title: Seq<char>, now: u64) -> AppModel {
        (match find_id(self.tasks, id) {
            Some(i) => self.with_task(
                i,
                TaskModel { title, ..self.tasks[i as int] }.touched(now),
            ),
            None => self,
        }).select_task(id, now)
    }

    /// A subtask retitled, its task touched.
    pub open spec fn apply_edit_sub(self, id: u64, si: usize, title: Seq<char>, now: u64) -> AppModel {
        (match find_id(self.tasks, id) {
            Some(i) if si < self.tasks[i as int].subtasks.len() => {
                let t = self.tasks[i as int];
                let s = model::SubTaskModel { title, ..t.subtasks[si as int] };
                self.with_task(
                    i,
                    TaskModel { subtasks: t.subtasks.update(si as int, s), ..t }.touched(now),
                )
            },
            _ => self,
        }).select_task(id, now)
    }

    /// A note reworded, its task touched.
    pub open spec fn apply_edit_note(self, id: u64, ni: usize, text: Seq<char>, now: u64) -> AppModel {
        (match find_id(self.tasks, id) {
            Some(i) if ni < self.tasks[i as int].notes.len() => {
                let t = self.tasks[i as int];
                let n = model::NoteModel { text, ..t.notes[ni as int] };
                self.with_task(
                    i,
                    TaskModel { notes: t.notes.update(ni as int, n), ..t }.touched(now),
                )
            },
            _ => self,
        }).select_task(id, now)
    }

    /// A task's whole tag set replaced, the task touched.
    pub open spec fn apply_tags(self, id: u64, input: Seq<char>, now: u64) -> AppModel {
        (match find_id(self.tasks, id) {
            Some(i) => self.with_task(
                i,
                retagged(self.tasks[i as int], text::words(input)).touched(now),
            ),
            None => self,
        }).select_task(id, now)
    }

    /// The state with a task expanded.
    pub open spec fn expand(self, id: u64) -> AppModel {
        AppModel { expanded: self.expanded.insert(id), ..self }
    }

    /// A subtask appended, its task touched and expanded.
    pub open spec fn add_subtask(self, id: u64, title: Seq<char>, now: u64) -> AppModel {
        (match find_id(self.tasks, id) {
            Some(i) => {
                let t = self.tasks[i as int];
                let s = model::SubTaskModel { title, done: false };
                self.with_task(i, TaskModel { subtasks: t.subtasks.push(s), ..t }.touched(now))
            },
            None => self,
        }).expand(id).select_task(id, now)
    }

    /// A note appended unless blank, its task touched and expanded.
    pub open spec fn add_note(self, id: u64, text: Seq<char>, now: u64) -> AppModel {
        (match find_id(self.tasks, id) {
            Some(i) => self.with_task(i, self.tasks[i as int].noted(text, now).touched(now)),
            None => self,
        }).expand(id).select_task(id, now)
    }

    /// Done toggled on the highlighted row.
    pub open spec fn toggle_selected(self, now: u64) -> AppModel {
        match self.selected_row(now) {
            Some(Row::Task(ti)) => {
                let t = self.tasks[ti as int];
                self.with_task(ti, TaskModel { done: !t.done, ..t })
            },
            Some(Row::Sub(ti, si)) => {
                let t = self.tasks[ti as int];
                let s = t.subtasks[si as int];
                let flipped = model::SubTaskModel { done: !s.done, ..s };
                self.with_task(
                    ti,
                    TaskModel { subtasks: t.subtasks.update(si as int, flipped), ..t }.touched(now),
                )
            },
            _ => self,
        }
    }

    /// The highlighted task expanded, or collapsed if it was expanded.
    pub open spec fn toggle_expand(self, now: u64) -> AppModel {
        match self.selected_task(now) {
            Some(ti) => {
                let id = self.tasks[ti as int].id;
                AppModel {
                    expanded: if self.expanded.contains(id) {
                        self.expanded.remove(id)
                    } else {
                        self.expanded.insert(id)
                    },
                    ..self
                }
            },
            None => self,
        }
    }

    /// The highlighted task brought back: not done, and touched.
    pub open spec fn revive_selected(self, now: u64) -> AppModel {
        match self.selected_task(now) {
            Some(ti) => {
                let t = self.tasks[ti as int];
                self.with_task(ti, TaskModel { done: false, ..t }.touched(now)).select_task(
                    t.id,
                    now,
                )
            },
            None => self,
        }
    }

    /// What the highlighted row stands for, removed.
    pub open spec fn without_selected(self, now: u64) -> AppModel {
        match self.selected_row(now) {
            Some(Row::Task(ti)) => AppModel {
                expanded: self.expanded.remove(self.tasks[ti as int].id),
                tasks: self.tasks.remove(ti as int),
                ..self
            },
            Some(Row::Sub(ti, si)) => {
                let t = self.tasks[ti as int];
                self.with_task(
                    ti,
                    TaskModel { subtasks: t.subtasks.remove(si as int), ..t }.touched(now),
                )
            },
            Some(Row::Note(ti, ni)) => {
                let t = self.tasks[ti as int];
                self.with_task(
                    ti,
                    TaskModel { notes: t.notes.remove(ni as int), ..t }.touched(now),
                )
            },
            None => self,
        }
    }

    /// What the highlighted row stands for, removed, and the highlight kept on a
    /// row.
    pub open spec fn remove_selected(self, now: u64) -> AppModel {
        let after = self.without_selected(now);
        if self.selected_row(now) is Some {
            AppModel { selected: clamped(after.selected, after.rows(now).len()), ..after }
        } else {
            self
        }
    }

    /// The text of the highlighted row.
    pub open spec fn selected_text(self, now: u64) -> Option<Seq<char>> {
        match self.selected_row(now) {
            Some(Row::Task(ti)) => Some(self.tasks[ti as int].title),
            Some(Row::Sub(ti, si)) => Some(self.tasks[ti as int].subtasks[si as int].title),
            Some(Row::Note(ti, ni)) => Some(self.tasks[ti as int].notes[ni as int].text),
            None => None,
        }
    }

    /// The state after the highlighted row's text was handed out for copying.
    pub open spec fn yanked(self, now: u64) -> AppModel {
        match self.selected_text(now) {
            Some(t) => AppModel {
                status: Some("yanked: "@ + crate::input::tail_of(t, 40)),
                ..self
            },
            None => self,
        }
    }

    /// The first row matching a query, ignoring case.
    pub open spec fn find_match(self, query: Seq<char>, now: u64) -> Option<usize> {
        let q = text::lowercase(text::trim(query));
        if q.len() == 0 {
            None
        } else {
            first_match(self.tasks, lowered_titles(self.tasks), self.rows(now), q)
        }
    }

    /// The state with the input line emptied.
    pub open spec fn clear_input(self) -> AppModel {
        AppModel { input: Seq::empty(), cursor: 0, ..self }
    }

    /// The state with a text on the input line, the cursor at its end.
    pub open spec fn set_input(self, s: Seq<char>) -> AppModel {
        AppModel { input: s, cursor: s.len() as usize, ..self }
    }
}

/// Index of the first task with an id.
pub fn find_index(tasks: &Vec<Task>, id: u64) -> (r: Option<usize>)
    ensures
        r == find_id(model::task_models(tasks@), id),
        r matches Some(i) ==> i < tasks@.len() && tasks@[i as int].id == id,
{
    let ghost all = model::task_models(tasks@);
    let mut i: usize = 0;
    while i < tasks.len()
        invariant
            i <= tasks@.len(),
            all == model::task_models(tasks@),
            find_id(all.take(i as int), id) is None,
        decreases tasks@.len() - i,
    {
        proof {
            assert(all.take(i + 1).drop_last() =~= all.take(i as int));
            assert(all.take(i + 1).last() == tasks@[i as int]@);
        }
        if tasks[i].id == id {
            proof {
                found_early(all, id, i + 1);
            }
            return Some(i);
        }
        i += 1;
    }
    assert(all.take(i as int) =~= all);
    None
}

/// A task found among the first ones is the one found in the whole list.
proof fn found_early(tasks: Seq<TaskModel>, id: u64, k: int)
    requires
        0 <= k <= tasks.len(),
        find_id(tasks.take(k), id) is Some,
    ensures
        find_id(tasks, id) == find_id(tasks.take(k), id),
    decreases tasks.len(),
{
    if k == tasks.len() {
        assert(tasks.take(k) =~= tasks);
    } else {
        assert(tasks.drop_last().take(k) =~= tasks.take(k));
        found_early(tasks.drop_last(), id, k);
    }
}

/// The first task with an id is in the list and has the id.
pub(crate) proof fn found_task(tasks: Seq<TaskModel>, id: u64)
    requires
        tasks.len() <= usize::MAX,
    ensures
        match find_id(tasks, id) {
            Some(k) => k < tasks.len() && tasks[k as int].id == id,
            None => forall|j: int| 0 <= j < tasks.len() ==> (#[trigger] tasks[j]).id != id,
        },
    decreases tasks.len(),
{
    if tasks.len() > 0 {
        let init = tasks.drop_last();
        found_task(init, id);
        if find_id(init, id) is None {
            assert forall|j: int| 0 <= j < tasks.len() - 1 implies (#[trigger] tasks[j]).id != id by {
                assert(tasks[j] == init[j]);
            }
        }
    }
}

/// A row found among the first ones is the one found among all.
pub(crate) proof fn row_found_early(tasks: Seq<TaskModel>, rows: Seq<Row>, id: u64, k: int)
    requires
        0 <= k <= rows.len(),
        find_row(tasks, rows.take(k), id) is Some,
    ensures
        find_row(tasks, rows, id) == find_row(tasks, rows.take(k), id),
    decreases rows.len(),
{
    if k == rows.len() {
        assert(rows.take(k) =~= rows);
    } else {
        assert(rows.drop_last().take(k) =~= rows.take(k));
        row_found_early(tasks, rows.drop_last(), id, k);
    }
}

/// A match among the first rows is the one among all.
pub(crate) proof fn match_found_early(
    tasks: Seq<TaskModel>,
    titles: Seq<Seq<char>>,
    rows: Seq<Row>,
    query: Seq<char>,
    k: int,
)
    requires
        0 <= k <= rows.len(),
        first_match(tasks, titles, rows.take(k), query) is Some,
    ensures
        first_match(tasks, titles, rows, query) == first_match(tasks, titles, rows.take(k), query),
    decreases rows.len(),
{
    if k == rows.len() {
        assert(rows.take(k) =~= rows);
    } else {
        assert(rows.drop_last().take(k) =~= rows.take(k));
        match_found_early(tasks, titles, rows.drop_last(), query, k);
    }
}

} // verus!
