//! Keyboard handling: from the state and a key to the next state and what is to
//! be done outside.

use crate::app;
use crate::app::{App, AppModel, Mode, ModeModel, Row, Section};
use crate::encode;
use crate::model;
use crate::model::{Task, Timestamp};
use crate::settings;
use crate::settings::{CfgField, Scope, CFG_FIELD_COUNT};
use crate::text;
use crate::theme;
use crate::theme::Theme;
use std::collections::HashSet;
use vstd::prelude::*;
use vstd::string::*;

verus! {

/// A key.
#[derive(Debug, Clone, Copy, PartialEq, Eq, Structural)]
pub enum KeyCode {
    Char(char),
    Esc,
    Enter,
    Tab,
    Backspace,
    Delete,
    Left,
    Right,
    Up,
    Down,
    Home,
    End,
    /// Any key that nothing is bound to.
    Other,
}

/// What is to be done outside, once the state has changed.
#[derive(Debug, PartialEq, Eq)]
pub enum Effect {
    Nothing,
    /// Save the current board's tasks, then report to `persist`.
    SaveTasks,
    /// Save the config; a failure is shown, through `save_cfg`, if `report` says so.
    SaveConfig { report: bool },
    /// Write this to the terminal.
    Copy(String),
    /// Save the config first if asked, whatever comes of it; list the boards, and
    /// hand them to `open_boards`.
    ListBoards { save_config: bool },
    /// List the boards, and hand them to `guard_delete` with this name.
    GuardDelete(String),
    /// Remove this board's file, then report to `delete_board`.
    RemoveBoard(String),
    /// Load this board's tasks, and hand them to `switch_board`.
    LoadBoard(String),
    /// Create this board's file, empty, unless there is one; then report to
    /// `create_board`.
    CreateBoard(String),
    /// Move the one board's file to the other's, unless there is one; then report
    /// to `rename_board`.
    RenameBoard { from: String, to: String },
}

/// What an effect holds.
pub enum EffectModel {
    Nothing,
    SaveTasks,
    SaveConfig { report: bool },
    Copy(Seq<char>),
    ListBoards { save_config: bool },
    GuardDelete(Seq<char>),
    RemoveBoard(Seq<char>),
    LoadBoard(Seq<char>),
    CreateBoard(Seq<char>),
    RenameBoard { from: Seq<char>, to: Seq<char> },
}

impl View for Effect {
    type V = EffectModel;

    open spec fn view(&self) -> EffectModel {
        match self {
            Effect::Nothing => EffectModel::Nothing,
            Effect::SaveTasks => EffectModel::SaveTasks,
            Effect::SaveConfig { report } => EffectModel::SaveConfig { report: *report },
            Effect::Copy(s) => EffectModel::Copy(s@),
            Effect::ListBoards { save_config } => EffectModel::ListBoards {
                save_config: *save_config,
            },
            Effect::GuardDelete(n) => EffectModel::GuardDelete(n@),
            Effect::RemoveBoard(n) => EffectModel::RemoveBoard(n@),
            Effect::LoadBoard(n) => EffectModel::LoadBoard(n@),
            Effect::CreateBoard(n) => EffectModel::CreateBoard(n@),
            Effect::RenameBoard { from, to } => EffectModel::RenameBoard { from: from@, to: to@ },
        }
    }
}

/// What came of an attempt to create or move a board's file.
pub enum FileOutcome {
    /// There was such a file already; nothing was done.
    Exists,
    /// It failed, for the given reason.
    Failed(String),
    /// It is done.
    Done,
}

/// `cur` moved by `delta`, kept within `len` places.
pub open spec fn moved(cur: int, len: int, delta: int) -> int {
    if len == 0 || cur + delta < 0 {
        0
    } else if cur + delta > len - 1 {
        len - 1
    } else {
        cur + delta
    }
}

/// Moves a selection, kept within `len` places.
pub fn move_selection(cur: usize, len: usize, delta: i32) -> (r: usize)
    ensures
        r == moved(cur as int, len as int, delta as int),
{
    if len == 0 {
        return 0;
    }
    let to: i128 = cur as i128 + delta as i128;
    if to < 0 {
        0
    } else if to > len as i128 - 1 {
        len - 1
    } else {
        to as usize
    }
}

/// A moved selection is a place, unless there is none.
pub proof fn selection_stays_in_bounds(cur: int, len: int, delta: int)
    requires
        len >= 0,
    ensures
        0 <= moved(cur, len, delta),
        len > 0 ==> moved(cur, len, delta) < len,
{
}

/// Why a board may not be deleted, if so: never the active board, never the last
/// remaining one.
pub open spec fn deletion_refused(
    name: Seq<char>,
    active: Seq<char>,
    total: nat,
) -> Option<Seq<char>> {
    if name == active {
        Some("cannot delete the active board"@)
    } else if total <= 1 {
        Some("cannot delete the only board"@)
    } else {
        None
    }
}

/// Whether `name` may be deleted: never the active board, never the last
/// remaining one.
pub fn board_deletable(name: &str, active: &str, total: usize) -> (r: Result<(), &'static str>)
    ensures
        match r {
            Ok(_) => deletion_refused(name@, active@, total as nat) is None,
            Err(e) => deletion_refused(name@, active@, total as nat) == Some(e@),
        },
{
    if text::same_text(name, active) {
        Err("cannot delete the active board")
    } else if total <= 1 {
        Err("cannot delete the only board")
    } else {
        Ok(())
    }
}

impl AppModel {
    /// What every operation keeps: the cursor is on the input line, the highlighted
    /// setting is one, and the board picker highlights a board.
    pub open spec fn well_formed(self) -> bool {
        &&& self.input.len() <= usize::MAX
        &&& self.cursor <= self.input.len()
        &&& self.cfg_sel < CFG_FIELD_COUNT
        &&& self.mode matches ModeModel::Boards { names, sel } ==> sel < names.len()
    }

    /// The state in a mode.
    pub open spec fn in_mode(self, mode: ModeModel) -> AppModel {
        AppModel { mode, ..self }
    }

    /// The state with a message.
    pub open spec fn saying(self, msg: Seq<char>) -> AppModel {
        AppModel { status: Some(msg), ..self }
    }

    /// What the highlighted row is edited as.
    pub open spec fn edit_selected(self, now: u64) -> AppModel {
        match self.selected_row(now) {
            Some(Row::Task(ti)) => {
                let t = self.tasks[ti as int];
                self.set_input(t.title).in_mode(ModeModel::Edit(t.id))
            },
            Some(Row::Sub(ti, si)) => {
                let t = self.tasks[ti as int];
                self.set_input(t.subtasks[si as int].title).in_mode(ModeModel::EditSub(t.id, si))
            },
            Some(Row::Note(ti, ni)) => {
                let t = self.tasks[ti as int];
                self.set_input(t.notes[ni as int].text).in_mode(ModeModel::EditNote(t.id, ni))
            },
            None => self,
        }
    }

    /// What a key does in the list.
    pub open spec fn normal_key(self, code: KeyCode, now: u64) -> (AppModel, EffectModel) {
        let s = AppModel { status: None, g_pending: false, ..self };
        let rows = s.rows(now).len();
        match code {
            KeyCode::Char('q') | KeyCode::Esc => (
                AppModel { quit: true, ..s },
                EffectModel::Nothing,
            ),
            KeyCode::Char('g') => (
                if self.g_pending {
                    AppModel { selected: 0, ..s }
                } else {
                    AppModel { g_pending: true, ..s }
                },
                EffectModel::Nothing,
            ),
            KeyCode::Char('G') => (
                AppModel {
                    selected: if rows == 0 {
                        0
                    } else {
                        (rows - 1) as usize
                    },
                    ..s
                },
                EffectModel::Nothing,
            ),
            KeyCode::Char('/') => (
                s.clear_input().in_mode(ModeModel::Search),
                EffectModel::Nothing,
            ),
            KeyCode::Down | KeyCode::Char('j') => (
                AppModel { selected: moved(s.selected as int, rows as int, 1) as usize, ..s },
                EffectModel::Nothing,
            ),
            KeyCode::Up | KeyCode::Char('k') => (
                AppModel { selected: moved(s.selected as int, rows as int, -1) as usize, ..s },
                EffectModel::Nothing,
            ),
            KeyCode::Tab => (
                AppModel { view: s.view.following(), selected: 0, ..s },
                EffectModel::Nothing,
            ),
            KeyCode::Enter | KeyCode::Right => (s.toggle_expand(now), EffectModel::Nothing),
            KeyCode::Char('a') => (
                s.clear_input().in_mode(ModeModel::Add),
                EffectModel::Nothing,
            ),
            KeyCode::Char('s') => (
                match s.row_task(now) {
                    Some(ti) => s.clear_input().in_mode(
                        ModeModel::AddSub(s.tasks[ti as int].id),
                    ),
                    None => s,
                },
                EffectModel::Nothing,
            ),
            KeyCode::Char('n') => (
                match s.row_task(now) {
                    Some(ti) => s.clear_input().in_mode(
                        ModeModel::AddNote(s.tasks[ti as int].id),
                    ),
                    None => s,
                },
                EffectModel::Nothing,
            ),
            KeyCode::Char('e') => (s.edit_selected(now), EffectModel::Nothing),
            KeyCode::Char('t') => (
                match s.selected_task(now) {
                    Some(ti) => {
                        let t = s.tasks[ti as int];
                        s.set_input(text::joined(t.tags, " "@)).in_mode(ModeModel::EditTags(t.id))
                    },
                    None => s,
                },
                EffectModel::Nothing,
            ),
            KeyCode::Char('d') | KeyCode::Char(' ') => (
                s.toggle_selected(now),
                if s.selected_row(now) matches Some(row) && row !is Note {
                    EffectModel::SaveTasks
                } else {
                    EffectModel::Nothing
                },
            ),
            KeyCode::Char('r') => (
                s.revive_selected(now),
                if s.selected_task(now) is Some {
                    EffectModel::SaveTasks
                } else {
                    EffectModel::Nothing
                },
            ),
            KeyCode::Char('c') => (
                AppModel { cfg_sel: 0, cfg_scope: Scope::Global, ..s }.in_mode(ModeModel::Config),
                EffectModel::Nothing,
            ),
            KeyCode::Char('b') => (s, EffectModel::ListBoards { save_config: false }),
            KeyCode::Char('?') => (s.in_mode(ModeModel::Help), EffectModel::Nothing),
            KeyCode::Char('y') => (
                s.yanked(now),
                match s.selected_text(now) {
                    Some(t) => EffectModel::Copy(encode::clipboard_of(t)),
                    None => EffectModel::Nothing,
                },
            ),
            KeyCode::Char('x') | KeyCode::Delete => (
                s.remove_selected(now),
                if s.selected_row(now) is Some {
                    EffectModel::SaveTasks
                } else {
                    EffectModel::Nothing
                },
            ),
            _ => (s, EffectModel::Nothing),
        }
    }
}

impl App {
    /// What a key does in the list at `now`.
    #[verifier::rlimit(60)]
    pub fn on_normal_key_at(&mut self, code: KeyCode, now: Timestamp) -> (r: Effect)
        requires
            old(self)@.well_formed(),
        ensures
            (final(self)@, r@) == old(self)@.normal_key(code, now),
            final(self)@.well_formed(),
    {
        self.status = None;
        // Any key but a second `g` breaks a pending `gg`.
        let g_was_pending = self.g_pending;
        self.g_pending = false;
        match code {
            KeyCode::Char('q') | KeyCode::Esc => self.quit = true,
            KeyCode::Char('g') => if g_was_pending {
                self.selected = 0;
            } else {
                self.g_pending = true;
            },
            KeyCode::Char('G') => {
                let rows: usize = self.rows_at(now).len();
                self.selected = if rows == 0 {
                    0
                } else {
                    rows - 1
                };
            },
            KeyCode::Char('/') => {
                self.clear_input();
                self.mode = Mode::Search;
            },
            KeyCode::Down | KeyCode::Char('j') => {
                let rows: usize = self.rows_at(now).len();
                self.selected = move_selection(self.selected, rows, 1);
            },
            KeyCode::Up | KeyCode::Char('k') => {
                let rows: usize = self.rows_at(now).len();
                self.selected = move_selection(self.selected, rows, -1);
            },
            KeyCode::Tab => {
                self.view = self.view.next();
                self.selected = 0;
            },
            KeyCode::Enter | KeyCode::Right => self.toggle_expand_at(now),
            KeyCode::Char('a') => {
                self.clear_input();
                self.mode = Mode::Add;
            },
            KeyCode::Char('s') => if let Some(ti) = self.row_task_at(now) {
                assert(self@.tasks[ti as int] == self.tasks@[ti as int]@);
                self.clear_input();
                self.mode = Mode::AddSub(self.tasks[ti].id);
            },
            KeyCode::Char('n') => if let Some(ti) = self.row_task_at(now) {
                assert(self@.tasks[ti as int] == self.tasks@[ti as int]@);
                self.clear_input();
                self.mode = Mode::AddNote(self.tasks[ti].id);
            },
            KeyCode::Char('e') => self.edit_selected_at(now),
            KeyCode::Char('t') => if let Some(ti) = self.selected_task_at(now) {
                assert(self@.tasks[ti as int] == self.tasks@[ti as int]@);
                let tags = text::join(&self.tasks[ti].tags, " ");
                let id: u64 = self.tasks[ti].id;
                self.set_input(tags);
                self.mode = Mode::EditTags(id);
            },
            KeyCode::Char('d') | KeyCode::Char(' ') => if self.toggle_selected_at(now) {
                return Effect::SaveTasks;
            },
            KeyCode::Char('r') => if self.revive_selected_at(now) {
                return Effect::SaveTasks;
            },
            KeyCode::Char('c') => {
                self.cfg_sel = 0;
                self.cfg_scope = Scope::Global;
                self.mode = Mode::Config;
            },
            KeyCode::Char('b') => return Effect::ListBoards { save_config: false },
            KeyCode::Char('?') => self.mode = Mode::Help,
            KeyCode::Char('y') => if let Some(escape) = self.yank_selected_at(now) {
                return Effect::Copy(escape);
            },
            KeyCode::Char('x') | KeyCode::Delete => if self.remove_selected_at(now) {
                return Effect::SaveTasks;
            },
            _ => {},
        }
        Effect::Nothing
    }

    /// Puts the highlighted row's text on the input line for editing.
    fn edit_selected_at(&mut self, now: Timestamp)
        ensures
            final(self)@ == old(self)@.edit_selected(now),
            old(self)@.well_formed() ==> final(self)@.well_formed(),
    {
        match self.selected_row_at(now) {
            Some(Row::Task(ti)) => {
                assert(self@.tasks[ti as int] == self.tasks@[ti as int]@);
                let id: u64 = self.tasks[ti].id;
                let title = self.tasks[ti].title.clone();
                self.set_input(title);
                self.mode = Mode::Edit(id);
            },
            Some(Row::Sub(ti, si)) => {
                assert(self@.tasks[ti as int] == self.tasks@[ti as int]@);
                let id: u64 = self.tasks[ti].id;
                let title = self.tasks[ti].subtasks[si].title.clone();
                self.set_input(title);
                self.mode = Mode::EditSub(id, si);
            },
            Some(Row::Note(ti, ni)) => {
                assert(self@.tasks[ti as int] == self.tasks@[ti as int]@);
                let id: u64 = self.tasks[ti].id;
                let words = self.tasks[ti].notes[ni].text.clone();
                self.set_input(words);
                self.mode = Mode::EditNote(id, ni);
            },
            None => {},
        }
    }

    /// What a key does in the list.
    pub fn on_normal_key(&mut self, code: KeyCode) -> (r: Effect)
        requires
            old(self)@.well_formed(),
        ensures
            exists|ts: u64| (final(self)@, r@) == #[trigger] old(self)@.normal_key(code, ts),
            final(self)@.well_formed(),
    {
        let now = model::now();
        let r = self.on_normal_key_at(code, now);
        assert((self@, r@) == old(self)@.normal_key(code, now));
        r
    }
}

impl AppModel {
    /// What an edit of a setting starts from: the global value, or the current
    /// override.
    pub open spec fn cfg_edit_value(self, f: CfgField) -> Seq<char> {
        match self.cfg_scope {
            Scope::Global => settings::shown_value(self.cfg, f),
            Scope::Board => settings::raw_override(
                settings::overrides_of(self.cfg, self.board),
                f,
            ),
        }
    }

    /// What a key does on the config screen.
    pub open spec fn config_key(self, code: KeyCode) -> AppModel {
        let s = AppModel { status: None, ..self };
        match code {
            KeyCode::Char('q') | KeyCode::Char('c') | KeyCode::Esc => s.in_mode(ModeModel::Normal),
            KeyCode::Tab => AppModel {
                cfg_scope: match s.cfg_scope {
                    Scope::Global => Scope::Board,
                    Scope::Board => Scope::Global,
                },
                ..s
            },
            KeyCode::Down | KeyCode::Char('j') => AppModel {
                cfg_sel: moved(s.cfg_sel as int, CFG_FIELD_COUNT as int, 1) as usize,
                ..s
            },
            KeyCode::Up | KeyCode::Char('k') => AppModel {
                cfg_sel: moved(s.cfg_sel as int, CFG_FIELD_COUNT as int, -1) as usize,
                ..s
            },
            KeyCode::Enter => {
                let f = CfgField::placed(s.cfg_sel as int);
                if s.cfg_scope == Scope::Board && f == CfgField::TickFps {
                    s.saying("tick_fps is global-only"@)
                } else {
                    s.set_input(s.cfg_edit_value(f)).in_mode(ModeModel::EditCfg(f))
                }
            },
            _ => s,
        }
    }

    /// The board that the picker highlights.
    pub open spec fn picked_board(self) -> Option<Seq<char>> {
        match self.mode {
            ModeModel::Boards { names, sel } if sel < names.len() => Some(names[sel as int]),
            _ => None,
        }
    }

    /// The state with the picker's highlight moved.
    pub open spec fn move_pick(self, delta: int) -> AppModel {
        match self.mode {
            ModeModel::Boards { names, sel } => self.in_mode(
                ModeModel::Boards {
                    names,
                    sel: moved(sel as int, names.len() as int, delta) as usize,
                },
            ),
            _ => self,
        }
    }

    /// What a key does in the board picker.
    pub open spec fn boards_key(self, code: KeyCode) -> (AppModel, EffectModel) {
        let s = AppModel { status: None, ..self };
        match code {
            KeyCode::Char('q') | KeyCode::Esc => (
                s.in_mode(ModeModel::Normal),
                EffectModel::Nothing,
            ),
            KeyCode::Down | KeyCode::Char('j') => (s.move_pick(1), EffectModel::Nothing),
            KeyCode::Up | KeyCode::Char('k') => (s.move_pick(-1), EffectModel::Nothing),
            KeyCode::Enter => (
                s,
                match s.picked_board() {
                    Some(n) => EffectModel::LoadBoard(n),
                    None => EffectModel::Nothing,
                },
            ),
            KeyCode::Char('a') => (
                s.clear_input().in_mode(ModeModel::AddBoard),
                EffectModel::Nothing,
            ),
            KeyCode::Char('r') => (
                match s.picked_board() {
                    Some(n) => s.set_input(n).in_mode(ModeModel::RenameBoard { old_name: n }),
                    None => s,
                },
                EffectModel::Nothing,
            ),
            KeyCode::Char('x') | KeyCode::Delete => (
                s,
                match s.picked_board() {
                    Some(n) => EffectModel::GuardDelete(n),
                    None => EffectModel::Nothing,
                },
            ),
            _ => (s, EffectModel::Nothing),
        }
    }

    /// What a key asks for where deleting a board is to be confirmed.
    pub open spec fn confirm_delete_key(self, code: KeyCode) -> EffectModel {
        match code {
            KeyCode::Char('y') | KeyCode::Char('Y') => match self.mode {
                ModeModel::ConfirmDeleteBoard { name } => EffectModel::RemoveBoard(name),
                _ => EffectModel::Nothing,
            },
            KeyCode::Char('n') | KeyCode::Char('N') | KeyCode::Char('q') | KeyCode::Esc =>
                EffectModel::ListBoards { save_config: false },
            _ => EffectModel::Nothing,
        }
    }

    /// The boards to pick from: those listed, and the active one.
    pub open spec fn board_names(self, listed: Seq<Seq<char>>) -> Seq<Seq<char>> {
        if listed.contains(self.board) {
            listed
        } else {
            text::in_dictionary_order(listed.push(self.board))
        }
    }

    /// The board picker, the active board highlighted.
    pub open spec fn open_boards(self, listed: Seq<Seq<char>>) -> AppModel {
        let names = self.board_names(listed);
        self.in_mode(
            ModeModel::Boards {
                names,
                sel: match find_text(names, self.board) {
                    Some(i) => i,
                    None => 0,
                },
            },
        )
    }

    /// Asking whether to delete a board, or why it cannot be.
    pub open spec fn guard_delete(self, name: Seq<char>, listed: Seq<Seq<char>>) -> AppModel {
        match deletion_refused(name, self.board, self.board_names(listed).len()) {
            None => self.in_mode(ModeModel::ConfirmDeleteBoard { name }),
            Some(e) => self.saying(e),
        }
    }
}

/// The first place of a text in a list.
pub open spec fn find_text(list: Seq<Seq<char>>, t: Seq<char>) -> Option<usize>
    decreases list.len(),
{
    if list.len() == 0 {
        None
    } else {
        match find_text(list.drop_last(), t) {
            Some(i) => Some(i),
            None => if list.last() == t {
                Some((list.len() - 1) as usize)
            } else {
                None
            },
        }
    }
}

/// A text found among the first ones is the one found among all.
proof fn text_found_early(list: Seq<Seq<char>>, t: Seq<char>, k: int)
    requires
        0 <= k <= list.len(),
        find_text(list.take(k), t) is Some,
    ensures
        find_text(list, t) == find_text(list.take(k), t),
    decreases list.len(),
{
    if k == list.len() {
        assert(list.take(k) =~= list);
    } else {
        assert(list.drop_last().take(k) =~= list.take(k));
        text_found_early(list.drop_last(), t, k);
    }
}

/// The first place of a string in a list.
pub(crate) fn position(list: &Vec<String>, t: &str) -> (r: Option<usize>)
    ensures
        r == find_text(text::texts(list@), t@),
        r matches Some(i) ==> i < list@.len(),
{
    let ghost all = text::texts(list@);
    let mut i: usize = 0;
    while i < list.len()
        invariant
            i <= list@.len(),
            all == text::texts(list@),
            find_text(all.take(i as int), t@) is None,
        decreases list@.len() - i,
    {
        proof {
            assert(all.take(i + 1).drop_last() =~= all.take(i as int));
            assert(all.take(i + 1).last() == list@[i as int]@);
        }
        if text::same_text(list[i].as_str(), t) {
            proof {
                text_found_early(all, t@, i + 1);
            }
            return Some(i);
        }
        i += 1;
    }
    assert(all.take(i as int) =~= all);
    None
}

impl App {
    /// Value to prefill the edit line: the global value, or the current override
    /// (empty when unset, so board-scope editing starts blank and empty clears).
    pub fn cfg_edit_value(&self, f: CfgField) -> (r: String)
        ensures
            r@ == self@.cfg_edit_value(f),
    {
        match self.cfg_scope {
            Scope::Global => settings::cfg_value(&self.cfg, f),
            Scope::Board => match self.cfg.boards.get(self.board.as_str()) {
                Some(o) => settings::override_raw(o, f),
                None => String::new(),
            },
        }
    }

    /// What a key does on the config screen.
    pub fn on_config_key(&mut self, code: KeyCode)
        requires
            old(self)@.well_formed(),
        ensures
            final(self)@ == old(self)@.config_key(code),
            final(self)@.well_formed(),
    {
        self.status = None;
        match code {
            KeyCode::Char('q') | KeyCode::Char('c') | KeyCode::Esc => self.mode = Mode::Normal,
            KeyCode::Tab => self.cfg_scope = match self.cfg_scope {
                Scope::Global => Scope::Board,
                Scope::Board => Scope::Global,
            },
            KeyCode::Down | KeyCode::Char('j') => self.cfg_sel = move_selection(
                self.cfg_sel,
                CFG_FIELD_COUNT,
                1,
            ),
            KeyCode::Up | KeyCode::Char('k') => self.cfg_sel = move_selection(
                self.cfg_sel,
                CFG_FIELD_COUNT,
                -1,
            ),
            KeyCode::Enter => {
                let f = CfgField::at(self.cfg_sel);
                if self.cfg_scope == Scope::Board && f == CfgField::TickFps {
                    self.status = Some("tick_fps is global-only".to_owned());
                } else {
                    let value = self.cfg_edit_value(f);
                    self.set_input(value);
                    self.mode = Mode::EditCfg(f);
                }
            },
            _ => {},
        }
    }

    /// The board that the picker highlights.
    fn picked_board(&self) -> (r: Option<String>)
        ensures
            text::opt_text(r) == self@.picked_board(),
    {
        match &self.mode {
            Mode::Boards { names, sel } => if *sel < names.len() {
                Some(names[*sel].clone())
            } else {
                None
            },
            _ => None,
        }
    }

    /// Moves the picker's highlight.
    fn move_pick(&mut self, delta: i32)
        requires
            old(self)@.well_formed(),
        ensures
            final(self)@ == old(self)@.move_pick(delta as int),
            final(self)@.well_formed(),
    {
        match &mut self.mode {
            Mode::Boards { names, sel } => {
                let to: usize = move_selection(*sel, names.len(), delta);
                *sel = to;
            },
            _ => {},
        }
    }

    /// What a key does in the board picker.
    pub fn on_boards_key(&mut self, code: KeyCode) -> (r: Effect)
        requires
            old(self)@.well_formed(),
        ensures
            (final(self)@, r@) == old(self)@.boards_key(code),
            final(self)@.well_formed(),
    {
        self.status = None;
        match code {
            KeyCode::Char('q') | KeyCode::Esc => self.mode = Mode::Normal,
            KeyCode::Down | KeyCode::Char('j') => self.move_pick(1),
            KeyCode::Up | KeyCode::Char('k') => self.move_pick(-1),
            KeyCode::Enter => if let Some(name) = self.picked_board() {
                return Effect::LoadBoard(name);
            },
            KeyCode::Char('a') => {
                self.clear_input();
                self.mode = Mode::AddBoard;
            },
            KeyCode::Char('r') => if let Some(name) = self.picked_board() {
                self.set_input(name.clone());
                self.mode = Mode::RenameBoard { old_name: name };
            },
            KeyCode::Char('x') | KeyCode::Delete => if let Some(name) = self.picked_board() {
                return Effect::GuardDelete(name);
            },
            _ => {},
        }
        Effect::Nothing
    }

    /// What a key asks for where deleting a board is to be confirmed.
    pub fn on_confirm_delete_board_key(&self, code: KeyCode) -> (r: Effect)
        ensures
            r@ == self@.confirm_delete_key(code),
    {
        match code {
            KeyCode::Char('y') | KeyCode::Char('Y') => match &self.mode {
                Mode::ConfirmDeleteBoard { name } => Effect::RemoveBoard(name.clone()),
                _ => Effect::Nothing,
            },
            KeyCode::Char('n') | KeyCode::Char('N') | KeyCode::Char('q') | KeyCode::Esc =>
                Effect::ListBoards { save_config: false },
            _ => Effect::Nothing,
        }
    }

    /// Board names for the picker, always including the active board even if its
    /// file doesn't exist on disk yet.
    pub fn board_names(&self, listed: Vec<String>) -> (r: Vec<String>)
        ensures
            text::texts(r@) == self@.board_names(text::texts(listed@)),
            text::texts(r@).contains(self@.board),
    {
        if text::contains_text(&listed, self.board.as_str()) {
            return listed;
        }
        let ghost before = text::texts(listed@);
        let mut names = listed;
        names.push(self.board.clone());
        assert(text::texts(names@) =~= before.push(self@.board));
        let r = text::sort_texts(names);
        proof {
            let all = before.push(self@.board);
            let s = text::texts(r@);
            assert(all[all.len() - 1] == self@.board);
            vstd::seq_lib::to_multiset_contains(all, self@.board);
            vstd::seq_lib::to_multiset_contains(s, self@.board);
        }
        r
    }

    /// Opens the board picker on the boards that were listed.
    pub fn open_boards(&mut self, listed: Vec<String>)
        requires
            old(self)@.well_formed(),
        ensures
            final(self)@ == old(self)@.open_boards(text::texts(listed@)),
            final(self)@.well_formed(),
    {
        let names = self.board_names(listed);
        let sel: usize = match position(&names, self.board.as_str()) {
            Some(i) => i,
            None => 0,
        };
        assert(names@.len() > 0);
        self.mode = Mode::Boards { names, sel };
    }

    /// Asks whether to delete a board, or says why it cannot be, given the boards
    /// that were listed.
    pub fn guard_delete(&mut self, name: String, listed: Vec<String>)
        requires
            old(self)@.well_formed(),
        ensures
            final(self)@ == old(self)@.guard_delete(name@, text::texts(listed@)),
            final(self)@.well_formed(),
    {
        let names = self.board_names(listed);
        match board_deletable(name.as_str(), self.board.as_str(), names.len()) {
            Ok(_) => self.mode = Mode::ConfirmDeleteBoard { name },
            Err(e) => self.status = Some(e.to_owned()),
        }
    }
}

impl AppModel {
    /// What a key that edits the input line does.
    pub open spec fn typed(self, code: KeyCode, ctrl: bool) -> AppModel {
        let len = self.input.len();
        match code {
            KeyCode::Left => AppModel {
                cursor: if self.cursor == 0 {
                    0
                } else {
                    (self.cursor - 1) as usize
                },
                ..self
            },
            KeyCode::Right => AppModel {
                cursor: if self.cursor < len {
                    (self.cursor + 1) as usize
                } else {
                    len as usize
                },
                ..self
            },
            KeyCode::Home => AppModel { cursor: 0, ..self },
            KeyCode::End => AppModel { cursor: len as usize, ..self },
            KeyCode::Backspace => if self.cursor > 0 {
                AppModel {
                    input: self.input.remove(self.cursor - 1),
                    cursor: (self.cursor - 1) as usize,
                    ..self
                }
            } else {
                self
            },
            KeyCode::Delete => if self.cursor < len {
                AppModel { input: self.input.remove(self.cursor as int), ..self }
            } else {
                self
            },
            KeyCode::Char(c) => if !ctrl {
                AppModel {
                    input: self.input.insert(self.cursor as int, c),
                    cursor: (self.cursor + 1) as usize,
                    ..self
                }
            } else if c == 'a' {
                AppModel { cursor: 0, ..self }
            } else if c == 'e' {
                AppModel { cursor: len as usize, ..self }
            } else if c == 'u' {
                AppModel { input: self.input.skip(self.cursor as int), cursor: 0, ..self }
            } else {
                self
            },
            _ => self,
        }
    }

    /// What leaving the input line without submitting does.
    pub open spec fn cancel_input(self) -> (AppModel, EffectModel) {
        match self.mode {
            ModeModel::EditCfg(_) => (
                self.in_mode(ModeModel::Config).clear_input(),
                EffectModel::Nothing,
            ),
            ModeModel::AddBoard | ModeModel::RenameBoard { .. } => (
                self.clear_input(),
                EffectModel::ListBoards { save_config: false },
            ),
            _ => (self.in_mode(ModeModel::Normal).clear_input(), EffectModel::Nothing),
        }
    }

    /// The state with another configuration, its theme in effect.
    pub open spec fn with_config(self, cfg: crate::config::ConfigModel) -> AppModel {
        AppModel { cfg, theme: theme::theme_named(cfg.effective(self.board).theme), ..self }
    }

    /// What submitting a setting does: a bad value shows an error and keeps the
    /// input for a retry.
    pub open spec fn submit_setting(self, f: CfgField) -> (AppModel, EffectModel) {
        match settings::applied(self.cfg, self.board, self.cfg_scope, f, self.input) {
            Ok(next) => (
                self.with_config(next).in_mode(ModeModel::Config).clear_input(),
                EffectModel::SaveConfig { report: true },
            ),
            Err(e) => (self.saying(e), EffectModel::Nothing),
        }
    }

    /// What submitting a new board's name does.
    pub open spec fn submit_board(self) -> (AppModel, EffectModel) {
        match model::board_name_of(text::trim(self.input)) {
            Ok(name) => (self.clear_input(), EffectModel::CreateBoard(name)),
            Err(e) => (self.saying(e).clear_input(), EffectModel::Nothing),
        }
    }

    /// What submitting another name for a board does.
    pub open spec fn submit_rename(self, old_name: Seq<char>) -> (AppModel, EffectModel) {
        match model::board_name_of(text::trim(self.input)) {
            Ok(name) => (
                self.clear_input(),
                if name == old_name {
                    EffectModel::ListBoards { save_config: false }
                } else {
                    EffectModel::RenameBoard { from: old_name, to: name }
                },
            ),
            Err(e) => (self.saying(e).clear_input(), EffectModel::Nothing),
        }
    }

    /// What a submitted text does to the tasks.
    pub open spec fn with_submitted(self, title: Seq<char>, now: u64) -> AppModel {
        match self.mode {
            ModeModel::Add => self.add_task(title, now),
            ModeModel::Edit(id) => self.apply_edit(id, title, now),
            ModeModel::EditSub(id, si) => self.apply_edit_sub(id, si, title, now),
            ModeModel::EditNote(id, ni) => self.apply_edit_note(id, ni, title, now),
            ModeModel::AddSub(id) => self.add_subtask(id, title, now),
            ModeModel::AddNote(id) => self.add_note(id, title, now),
            _ => self,
        }
    }

    /// What submitting the input line does. Tags apply even when empty (empty
    /// input clears all tags); everywhere else empty input changes nothing.
    pub open spec fn submit(self, now: u64) -> (AppModel, EffectModel) {
        let title = text::trim(self.input);
        match self.mode {
            ModeModel::Search => (
                self.in_mode(ModeModel::Normal).clear_input(),
                EffectModel::Nothing,
            ),
            ModeModel::EditCfg(f) => self.submit_setting(f),
            ModeModel::EditTags(id) => (
                self.apply_tags(id, title, now).in_mode(ModeModel::Normal).clear_input(),
                EffectModel::SaveTasks,
            ),
            ModeModel::AddBoard => self.submit_board(),
            ModeModel::RenameBoard { old_name } => self.submit_rename(old_name),
            _ => if title.len() > 0 {
                (
                    self.with_submitted(title, now).in_mode(ModeModel::Normal).clear_input(),
                    EffectModel::SaveTasks,
                )
            } else {
                (self.in_mode(ModeModel::Normal).clear_input(), EffectModel::Nothing)
            },
        }
    }

    /// The highlight on the first match while searching.
    pub open spec fn following_search(self, now: u64) -> AppModel {
        if self.mode is Search {
            match self.find_match(self.input, now) {
                Some(i) => AppModel { selected: i, ..self },
                None => self,
            }
        } else {
            self
        }
    }

    /// What a key does on the input line.
    pub open spec fn input_key(self, code: KeyCode, ctrl: bool, now: u64) -> (
        AppModel,
        EffectModel,
    ) {
        let (s, e) = match code {
            KeyCode::Esc => self.cancel_input(),
            KeyCode::Enter => self.submit(now),
            _ => (self.typed(code, ctrl), EffectModel::Nothing),
        };
        (s.following_search(now), e)
    }

    /// Whether submitting the input line adds a task: only a line that is not blank
    /// does.
    pub open spec fn adds_a_task(self) -> bool {
        self.mode is Add && text::trim(self.input).len() > 0
    }

    /// Whether a task could be added: there is an id left for it.
    pub open spec fn has_free_id(self) -> bool {
        model::max_id(self.tasks) < u64::MAX
    }
}

impl App {
    /// Edits the input line.
    pub fn type_key(&mut self, code: KeyCode, ctrl: bool)
        requires
            old(self)@.well_formed(),
        ensures
            final(self)@ == old(self)@.typed(code, ctrl),
            final(self)@.well_formed(),
    {
        let mut v = text::chars_of(self.input.as_str());
        let len: usize = v.len();
        match code {
            KeyCode::Left => if self.cursor > 0 {
                self.cursor = self.cursor - 1;
            },
            KeyCode::Right => if self.cursor < len {
                self.cursor = self.cursor + 1;
            } else {
                self.cursor = len;
            },
            KeyCode::Home => self.cursor = 0,
            KeyCode::End => self.cursor = len,
            KeyCode::Backspace => if self.cursor > 0 {
                let at: usize = self.cursor - 1;
                v.remove(at);
                self.set_line(&v, 0);
                self.cursor = at;
            },
            KeyCode::Delete => if self.cursor < len {
                v.remove(self.cursor);
                self.set_line(&v, 0);
            },
            KeyCode::Char(c) => if !ctrl {
                v.insert(self.cursor, c);
                let grown: usize = v.len();
                self.set_line(&v, 0);
                assert(self.cursor < grown);
                self.cursor = self.cursor + 1;
            } else if c == 'a' {
                self.cursor = 0;
            } else if c == 'e' {
                self.cursor = len;
            } else if c == 'u' {
                // Kill from cursor back to the start of the line (readline Ctrl+U).
                let from: usize = self.cursor;
                self.set_line(&v, from);
                self.cursor = 0;
            },
            _ => {},
        }
    }

    /// Makes the characters of `v` from `from` on the input line.
    fn set_line(&mut self, v: &Vec<char>, from: usize)
        requires
            from <= v@.len(),
        ensures
            final(self)@ == (AppModel { input: v@.skip(from as int), ..old(self)@ }),
            final(self)@.input.len() <= usize::MAX,
    {
        let n: usize = v.len();
        self.input = text::text_of(v, from, n);
        assert(self.input@ =~= v@.skip(from as int));
    }
}

impl App {
    /// Whether submitting the input line adds a task.
    pub fn adds_a_task(&self) -> (r: bool)
        ensures
            r == self@.adds_a_task(),
    {
        match self.mode {
            Mode::Add => !text::trimmed(self.input.as_str()).as_str().is_empty(),
            _ => false,
        }
    }

    /// Whether a task could be added: there is an id left for it.
    pub fn has_free_id(&self) -> (r: bool)
        ensures
            r == self@.has_free_id(),
    {
        Task::last_id(self.tasks.as_slice()) < u64::MAX
    }

    /// Leaves the input line without submitting it.
    fn cancel_input(&mut self) -> (r: Effect)
        requires
            old(self)@.well_formed(),
        ensures
            (final(self)@, r@) == old(self)@.cancel_input(),
            final(self)@.well_formed(),
    {
        let effect = match self.mode {
            Mode::EditCfg(_) => {
                self.mode = Mode::Config;
                Effect::Nothing
            },
            Mode::AddBoard => Effect::ListBoards { save_config: false },
            Mode::RenameBoard { .. } => Effect::ListBoards { save_config: false },
            _ => {
                self.mode = Mode::Normal;
                Effect::Nothing
            },
        };
        self.clear_input();
        effect
    }

    /// Submits a setting.
    fn submit_setting(&mut self, f: CfgField) -> (r: Effect)
        requires
            old(self)@.well_formed(),
        ensures
            (final(self)@, r@) == old(self)@.submit_setting(f),
            final(self)@.well_formed(),
    {
        match settings::apply_cfg(
            &self.cfg,
            self.board.as_str(),
            self.cfg_scope,
            f,
            self.input.as_str(),
        ) {
            Ok(next) => {
                self.cfg = next;
                self.theme = Theme::named(self.ecfg().theme.as_str());
                self.mode = Mode::Config;
                self.clear_input();
                Effect::SaveConfig { report: true }
            },
            Err(e) => {
                self.status = Some(e);
                Effect::Nothing
            },
        }
    }

    /// Submits a new board's name.
    fn submit_board(&mut self) -> (r: Effect)
        requires
            old(self)@.well_formed(),
        ensures
            (final(self)@, r@) == old(self)@.submit_board(),
            final(self)@.well_formed(),
    {
        let title = text::trimmed(self.input.as_str());
        let effect = match model::normalize_board_name(title.as_str()) {
            Ok(name) => Effect::CreateBoard(name),
            Err(e) => {
                self.status = Some(e);
                Effect::Nothing
            },
        };
        self.clear_input();
        effect
    }

    /// Submits another name for a board.
    fn submit_rename(&mut self, old_name: String) -> (r: Effect)
        requires
            old(self)@.well_formed(),
        ensures
            (final(self)@, r@) == old(self)@.submit_rename(old_name@),
            final(self)@.well_formed(),
    {
        let title = text::trimmed(self.input.as_str());
        let effect = match model::normalize_board_name(title.as_str()) {
            Ok(name) => if text::same_text(name.as_str(), old_name.as_str()) {
                Effect::ListBoards { save_config: false }
            } else {
                Effect::RenameBoard { from: old_name, to: name }
            },
            Err(e) => {
                self.status = Some(e);
                Effect::Nothing
            },
        };
        self.clear_input();
        effect
    }

    /// Applies a submitted text to the tasks.
    fn submit_text_at(&mut self, title: String, now: Timestamp)
        requires
            old(self)@.mode is Add ==> old(self)@.has_free_id(),
        ensures
            final(self)@ == old(self)@.with_submitted(title@, now),
    {
        match self.mode {
            Mode::Add => self.add_task_at(title, now),
            Mode::Edit(id) => self.apply_edit_at(id, title, now),
            Mode::EditSub(id, si) => self.apply_edit_sub_at(id, si, title, now),
            Mode::EditNote(id, ni) => self.apply_edit_note_at(id, ni, title, now),
            Mode::AddSub(id) => self.add_subtask_at(id, title, now),
            Mode::AddNote(id) => self.add_note_at(id, title, now),
            _ => {},
        }
    }

    /// Submits the input line at `now`.
    #[verifier::rlimit(40)]
    pub fn submit_at(&mut self, now: Timestamp) -> (r: Effect)
        requires
            old(self)@.well_formed(),
            old(self)@.adds_a_task() ==> old(self)@.has_free_id(),
        ensures
            (final(self)@, r@) == old(self)@.submit(now),
            final(self)@.well_formed(),
    {
        let title = text::trimmed(self.input.as_str());
        let old_name: Option<String> = match &self.mode {
            Mode::RenameBoard { old_name } => Some(old_name.clone()),
            _ => None,
        };
        if let Some(old_name) = old_name {
            return self.submit_rename(old_name);
        }
        match self.mode {
            Mode::Search => {
                self.mode = Mode::Normal;
                self.clear_input();
                Effect::Nothing
            },
            Mode::EditCfg(f) => self.submit_setting(f),
            Mode::EditTags(id) => {
                self.apply_tags_at(id, title, now);
                self.mode = Mode::Normal;
                self.clear_input();
                Effect::SaveTasks
            },
            Mode::AddBoard => self.submit_board(),
            _ => {
                let effect = if title.as_str().is_empty() {
                    Effect::Nothing
                } else {
                    self.submit_text_at(title, now);
                    Effect::SaveTasks
                };
                self.mode = Mode::Normal;
                self.clear_input();
                effect
            },
        }
    }

    /// What a key does on the input line at `now`.
    #[verifier::rlimit(40)]
    pub fn on_input_key_at(&mut self, code: KeyCode, ctrl: bool, now: Timestamp) -> (r: Effect)
        requires
            old(self)@.well_formed(),
            code == KeyCode::Enter && old(self)@.adds_a_task() ==> old(self)@.has_free_id(),
        ensures
            (final(self)@, r@) == old(self)@.input_key(code, ctrl, now),
            final(self)@.well_formed(),
    {
        let effect = match code {
            KeyCode::Esc => self.cancel_input(),
            KeyCode::Enter => self.submit_at(now),
            _ => {
                self.type_key(code, ctrl);
                Effect::Nothing
            },
        };
        // Incremental search: keep the highlight on the first match as the
        // query changes (Esc/Enter already left Search mode, so this is skipped).
        let searching = match self.mode {
            Mode::Search => true,
            _ => false,
        };
        if searching {
            if let Some(i) = self.find_match_at(self.input.as_str(), now) {
                self.selected = i;
            }
        }
        effect
    }

    /// What a key does on the input line.
    pub fn on_input_key(&mut self, code: KeyCode, ctrl: bool) -> (r: Effect)
        requires
            old(self)@.well_formed(),
            code == KeyCode::Enter && old(self)@.adds_a_task() ==> old(self)@.has_free_id(),
        ensures
            exists|ts: u64| (final(self)@, r@) == #[trigger] old(self)@.input_key(code, ctrl, ts),
            final(self)@.well_formed(),
    {
        let now = model::now();
        let r = self.on_input_key_at(code, ctrl, now);
        assert((self@, r@) == old(self)@.input_key(code, ctrl, now));
        r
    }
}

impl AppModel {
    /// What a key does.
    pub open spec fn key(self, code: KeyCode, ctrl: bool, now: u64) -> (AppModel, EffectModel) {
        match self.mode {
            ModeModel::Normal => self.normal_key(code, now),
            ModeModel::Help => (self.in_mode(ModeModel::Normal), EffectModel::Nothing),
            ModeModel::Config => (self.config_key(code), EffectModel::Nothing),
            ModeModel::Boards { .. } => self.boards_key(code),
            ModeModel::ConfirmDeleteBoard { .. } => (self, self.confirm_delete_key(code)),
            _ => self.input_key(code, ctrl, now),
        }
    }

    /// What a tick without a key does: the animation moves on.
    pub open spec fn ticked(self) -> AppModel {
        AppModel {
            frame: if self.frame == u64::MAX {
                0
            } else {
                (self.frame + 1) as u64
            },
            ..self
        }
    }

    /// The state once a board's tasks were loaded, or could not be.
    pub open spec fn switch_board(
        self,
        name: Seq<char>,
        loaded: Result<Seq<model::TaskModel>, Seq<char>>,
    ) -> (AppModel, EffectModel) {
        match loaded {
            Ok(tasks) => {
                let cfg = crate::config::ConfigModel { active_board: name, ..self.cfg };
                (
                    AppModel {
                        tasks,
                        board: name,
                        selected: 0,
                        expanded: Set::empty(),
                        view: Section::Active,
                        ..self
                    }.with_config(cfg).in_mode(ModeModel::Normal).saying("switched to "@ + name),
                    EffectModel::SaveConfig { report: false },
                )
            },
            Err(e) => (self.saying("load failed: "@ + e), EffectModel::Nothing),
        }
    }

    /// The state once a board's file was created, or could not be.
    pub open spec fn create_board(self, name: Seq<char>, outcome: FileOutcome) -> (
        AppModel,
        EffectModel,
    ) {
        match outcome {
            FileOutcome::Exists => (
                self.saying("board '"@ + name + "' already exists"@),
                EffectModel::Nothing,
            ),
            FileOutcome::Failed(e) => (self.saying("save failed: "@ + e@), EffectModel::Nothing),
            FileOutcome::Done => (self, EffectModel::LoadBoard(name)),
        }
    }

    /// The configuration with a board's overrides carried over to another name.
    pub open spec fn overrides_moved(self, from: Seq<char>, to: Seq<char>) -> AppModel {
        let boards = self.cfg.boards;
        let cfg = crate::config::ConfigModel {
            boards: if boards.contains_key(from) {
                boards.remove(from).insert(to, boards[from])
            } else {
                boards
            },
            ..self.cfg
        };
        AppModel { cfg, ..self }
    }

    /// The state once a board's file was moved, or could not be: its overrides
    /// and the active-board pointer go along.
    pub open spec fn rename_board(
        self,
        from: Seq<char>,
        to: Seq<char>,
        outcome: FileOutcome,
    ) -> (AppModel, EffectModel) {
        match outcome {
            FileOutcome::Exists => (
                self.saying("board '"@ + to + "' already exists"@),
                EffectModel::Nothing,
            ),
            FileOutcome::Failed(e) => (self.saying("rename failed: "@ + e@), EffectModel::Nothing),
            FileOutcome::Done => {
                let s = self.overrides_moved(from, to);
                (
                    (if self.board == from {
                        AppModel {
                            board: to,
                            cfg: crate::config::ConfigModel { active_board: to, ..s.cfg },
                            ..s
                        }
                    } else {
                        s
                    }).saying("renamed to "@ + to),
                    EffectModel::ListBoards { save_config: true },
                )
            },
        }
    }

    /// The state once a board's file was removed, or could not be: its overrides
    /// go too.
    pub open spec fn delete_board(self, name: Seq<char>, failure: Option<Seq<char>>) -> (
        AppModel,
        EffectModel,
    ) {
        match failure {
            Some(e) => (
                self.saying("delete failed: "@ + e),
                EffectModel::ListBoards { save_config: false },
            ),
            None => {
                let cfg = crate::config::ConfigModel {
                    boards: self.cfg.boards.remove(name),
                    ..self.cfg
                };
                (
                    AppModel { cfg, ..self }.saying("deleted "@ + name),
                    EffectModel::ListBoards { save_config: self.cfg.boards.contains_key(name) },
                )
            },
        }
    }

    /// The state once something was done that may have failed: the failure is
    /// shown behind `lead`.
    pub open spec fn reported(self, lead: Seq<char>, failure: Option<Seq<char>>) -> AppModel {
        match failure {
            Some(e) => self.saying(lead + e),
            None => self,
        }
    }
}

/// The view of loaded tasks.
pub open spec fn loaded_tasks(r: Result<Vec<Task>, String>) -> Result<
    Seq<model::TaskModel>,
    Seq<char>,
> {
    match r {
        Ok(tasks) => Ok(model::task_models(tasks@)),
        Err(e) => Err(e@),
    }
}

/// Two texts, one after the other.
fn concat2(a: &str, b: &str) -> (r: String)
    ensures
        r@ == a@ + b@,
{
    let mut r = a.to_owned();
    r.append(b);
    r
}

impl App {
    /// What a key does at `now`. Any key closes the help.
    #[verifier::rlimit(40)]
    pub fn on_key_at(&mut self, code: KeyCode, ctrl: bool, now: Timestamp) -> (r: Effect)
        requires
            old(self)@.well_formed(),
            code == KeyCode::Enter && old(self)@.adds_a_task() ==> old(self)@.has_free_id(),
        ensures
            (final(self)@, r@) == old(self)@.key(code, ctrl, now),
            final(self)@.well_formed(),
    {
        match self.mode {
            Mode::Normal => self.on_normal_key_at(code, now),
            Mode::Help => {
                self.mode = Mode::Normal;
                Effect::Nothing
            },
            Mode::Config => {
                self.on_config_key(code);
                Effect::Nothing
            },
            Mode::Boards { .. } => self.on_boards_key(code),
            Mode::ConfirmDeleteBoard { .. } => self.on_confirm_delete_board_key(code),
            _ => self.on_input_key_at(code, ctrl, now),
        }
    }

    /// Moves the animation on when no key came; whether anything on screen moves.
    pub fn on_tick_at(&mut self, now: Timestamp) -> (r: bool)
        ensures
            final(self)@ == old(self)@.ticked(),
            r == final(self)@.has_animation(now),
    {
        self.frame = if self.frame == u64::MAX {
            0
        } else {
            self.frame + 1
        };
        self.has_animation_at(now)
    }

    /// Makes a board active once its tasks were loaded. Per-mutation saves mean
    /// there's nothing to flush for the board we're leaving.
    pub fn switch_board(&mut self, name: String, loaded: Result<Vec<Task>, String>) -> (r: Effect)
        requires
            old(self)@.well_formed(),
        ensures
            (final(self)@, r@) == old(self)@.switch_board(name@, loaded_tasks(loaded)),
            final(self)@.well_formed(),
    {
        match loaded {
            Ok(tasks) => {
                self.tasks = tasks;
                self.board = name.clone();
                self.cfg.active_board = name.clone();
                self.theme = Theme::named(self.ecfg().theme.as_str());
                self.selected = 0;
                proof {
                    broadcast use vstd::std_specs::hash::group_hash_axioms;

                }
                self.expanded = HashSet::new();
                self.view = Section::Active;
                self.mode = Mode::Normal;
                self.status = Some(concat2("switched to ", name.as_str()));
                Effect::SaveConfig { report: false }
            },
            Err(e) => {
                self.status = Some(concat2("load failed: ", e.as_str()));
                Effect::Nothing
            },
        }
    }

    /// A message that there is such a board already.
    fn already_exists(name: &str) -> (r: String)
        ensures
            r@ == "board '"@ + name@ + "' already exists"@,
    {
        let mut m = concat2("board '", name);
        m.append("' already exists");
        m
    }

    /// Goes on to a board whose file was created, or says why it was not.
    pub fn create_board(&mut self, name: String, outcome: FileOutcome) -> (r: Effect)
        requires
            old(self)@.well_formed(),
        ensures
            (final(self)@, r@) == old(self)@.create_board(name@, outcome),
            final(self)@.well_formed(),
    {
        match outcome {
            FileOutcome::Exists => {
                self.status = Some(App::already_exists(name.as_str()));
                Effect::Nothing
            },
            FileOutcome::Failed(e) => {
                self.status = Some(concat2("save failed: ", e.as_str()));
                Effect::Nothing
            },
            FileOutcome::Done => Effect::LoadBoard(name),
        }
    }

    /// Carries a board's override and the active-board pointer over to its new
    /// name, once its file was moved.
    pub fn rename_board(&mut self, from: String, to: String, outcome: FileOutcome) -> (r: Effect)
        requires
            old(self)@.well_formed(),
        ensures
            (final(self)@, r@) == old(self)@.rename_board(from@, to@, outcome),
            final(self)@.well_formed(),
    {
        match outcome {
            FileOutcome::Exists => {
                self.status = Some(App::already_exists(to.as_str()));
                Effect::Nothing
            },
            FileOutcome::Failed(e) => {
                self.status = Some(concat2("rename failed: ", e.as_str()));
                Effect::Nothing
            },
            FileOutcome::Done => {
                let moved = self.cfg.boards.remove(from.as_str());
                if let Some(o) = moved {
                    self.cfg.boards.insert(to.clone(), o);
                }
                assert(self@ =~= old(self)@.overrides_moved(from@, to@));
                if text::same_text(self.board.as_str(), from.as_str()) {
                    self.board = to.clone();
                    self.cfg.active_board = to.clone();
                }
                self.status = Some(concat2("renamed to ", to.as_str()));
                Effect::ListBoards { save_config: true }
            },
        }
    }

    /// Drops a board's config override once its file was removed; `failure` says
    /// why it could not be. Guarded upstream (`board_deletable`), so it never
    /// concerns the active or only board.
    pub fn delete_board(&mut self, name: String, failure: Option<String>) -> (r: Effect)
        requires
            old(self)@.well_formed(),
        ensures
            (final(self)@, r@) == old(self)@.delete_board(name@, text::opt_text(failure)),
            final(self)@.well_formed(),
    {
        match failure {
            Some(e) => {
                self.status = Some(concat2("delete failed: ", e.as_str()));
                Effect::ListBoards { save_config: false }
            },
            None => {
                let dropped = self.cfg.boards.remove(name.as_str()).is_some();
                self.status = Some(concat2("deleted ", name.as_str()));
                Effect::ListBoards { save_config: dropped }
            },
        }
    }

    /// Shows why the tasks could not be saved, if so.
    pub fn persist(&mut self, failure: Option<String>)
        requires
            old(self)@.well_formed(),
        ensures
            final(self)@ == old(self)@.reported("save failed: "@, text::opt_text(failure)),
            final(self)@.well_formed(),
    {
        if let Some(e) = failure {
            self.status = Some(concat2("save failed: ", e.as_str()));
        }
    }

    /// Shows why the config could not be saved, if so.
    pub fn save_cfg(&mut self, failure: Option<String>)
        requires
            old(self)@.well_formed(),
        ensures
            final(self)@ == old(self)@.reported("config save failed: "@, text::opt_text(failure)),
            final(self)@.well_formed(),
    {
        if let Some(e) = failure {
            self.status = Some(concat2("config save failed: ", e.as_str()));
        }
    }
}

/// Milliseconds between frames.
pub open spec fn millis_of(fps: u32) -> u32 {
    1000u32 / (if fps == 0 {
        1u32
    } else {
        fps
    })
}

/// Milliseconds between frames.
pub fn tick_millis(fps: u32) -> (r: u32)
    ensures
        r == millis_of(fps),
{
    if fps == 0 {
        1000
    } else {
        1000 / fps
    }
}

} // verus!
