//! What the keys of the interactive list are for, whatever they are given.

use crate::app::{AppModel, ModeModel, Row, Section};
use crate::config::ConfigModel;
use crate::guarantees;
use crate::keys;
use crate::keys::{EffectModel, FileOutcome, KeyCode};
use crate::model;
use crate::model::TaskModel;
use crate::settings;
use crate::settings::{CfgField, Scope};
use crate::task_laws;
use crate::text;
use crate::text_laws;
use crate::theme;
use vstd::prelude::*;
use vstd::string::*;

verus! {

/// A message and a pending `g` do not bear on the rows.
proof fn rows_ignore_messages(s: AppModel, now: u64)
    ensures
        ({
            let t = AppModel { status: None, g_pending: false, ..s };
            &&& t.rows(now) == s.rows(now)
            &&& t.selected_row(now) == s.selected_row(now)
        }),
{
    let t = AppModel { status: None, g_pending: false, ..s };
    assert(t.rows(now) == s.rows(now));
}

/// In the list, the keys that open something open it and change nothing else but that
/// the last message goes: `a` the line for a new task, `/` the search, `?` the help, `c`
/// the settings from the top of the global ones; `b` asks for the boards.
pub proof fn list_keys_open_things(s: AppModel, ctrl: bool, now: u64)
    requires
        s.mode is Normal,
    ensures
        s.key(KeyCode::Char('a'), ctrl, now) == (
            AppModel {
                mode: ModeModel::Add,
                input: Seq::empty(),
                cursor: 0,
                status: None,
                g_pending: false,
                ..s
            },
            EffectModel::Nothing,
        ),
        s.key(KeyCode::Char('/'), ctrl, now) == (
            AppModel {
                mode: ModeModel::Search,
                input: Seq::empty(),
                cursor: 0,
                status: None,
                g_pending: false,
                ..s
            },
            EffectModel::Nothing,
        ),
        s.key(KeyCode::Char('?'), ctrl, now) == (
            AppModel { mode: ModeModel::Help, status: None, g_pending: false, ..s },
            EffectModel::Nothing,
        ),
        s.key(KeyCode::Char('c'), ctrl, now) == (
            AppModel {
                mode: ModeModel::Config,
                cfg_sel: 0,
                cfg_scope: Scope::Global,
                status: None,
                g_pending: false,
                ..s
            },
            EffectModel::Nothing,
        ),
        s.key(KeyCode::Char('b'), ctrl, now) == (
            AppModel { status: None, g_pending: false, ..s },
            EffectModel::ListBoards { save_config: false },
        ),
{
}

/// In the list, `s` and `n` open the line for a subtask or a note of the task that the
/// highlighted row belongs to, whether that is the task itself or a part of it.
pub proof fn list_keys_add_to_the_highlighted(
    s: AppModel,
    ctrl: bool,
    now: u64,
    ti: usize,
    k: usize,
)
    requires
        s.mode is Normal,
    ensures
        ({
            let row = s.selected_row(now);
            let belongs = row == Some(Row::Task(ti)) || row == Some(Row::Sub(ti, k)) || row == Some(
                Row::Note(ti, k),
            );
            let base = AppModel { status: None, g_pending: false, ..s };
            let id = s.tasks[ti as int].id;
            &&& belongs ==> s.key(KeyCode::Char('s'), ctrl, now) == (
                AppModel { mode: ModeModel::AddSub(id), input: Seq::empty(), cursor: 0, ..base },
                EffectModel::Nothing,
            )
            &&& belongs ==> s.key(KeyCode::Char('n'), ctrl, now) == (
                AppModel { mode: ModeModel::AddNote(id), input: Seq::empty(), cursor: 0, ..base },
                EffectModel::Nothing,
            )
            &&& row is None ==> s.key(KeyCode::Char('s'), ctrl, now) == (
                base,
                EffectModel::Nothing,
            ) && s.key(KeyCode::Char('n'), ctrl, now) == (base, EffectModel::Nothing)
        }),
{
    rows_ignore_messages(s, now);
}

/// In the list, `e` puts the text of the highlighted row on the input line, to be
/// edited as what it is, and `t` the tags of the highlighted task, with spaces between.
pub proof fn list_keys_edit_the_highlighted(
    s: AppModel,
    ctrl: bool,
    now: u64,
    ti: usize,
    k: usize,
)
    requires
        s.mode is Normal,
    ensures
        ({
            let row = s.selected_row(now);
            let base = AppModel { status: None, g_pending: false, ..s };
            let t = s.tasks[ti as int];
            let edit = s.key(KeyCode::Char('e'), ctrl, now);
            let tags = s.key(KeyCode::Char('t'), ctrl, now);
            &&& edit.1 == EffectModel::Nothing && tags.1 == EffectModel::Nothing
            &&& row == Some(Row::Task(ti)) ==> edit.0 == (AppModel {
                mode: ModeModel::Edit(t.id),
                input: t.title,
                cursor: t.title.len() as usize,
                ..base
            })
            &&& row == Some(Row::Sub(ti, k)) ==> edit.0 == (AppModel {
                mode: ModeModel::EditSub(t.id, k),
                input: t.subtasks[k as int].title,
                cursor: t.subtasks[k as int].title.len() as usize,
                ..base
            })
            &&& row == Some(Row::Note(ti, k)) ==> edit.0 == (AppModel {
                mode: ModeModel::EditNote(t.id, k),
                input: t.notes[k as int].text,
                cursor: t.notes[k as int].text.len() as usize,
                ..base
            })
            &&& row == Some(Row::Task(ti)) ==> tags.0 == (AppModel {
                mode: ModeModel::EditTags(t.id),
                input: text::joined(t.tags, " "@),
                cursor: text::joined(t.tags, " "@).len() as usize,
                ..base
            })
            &&& row == Some(Row::Sub(ti, k)) || row == Some(Row::Note(ti, k)) ==> tags.0 == base
            &&& row is None ==> edit.0 == base && tags.0 == base
        }),
{
    rows_ignore_messages(s, now);
}

/// In the list, the keys that move the highlight move it by one, to the top or to the
/// bottom, never off the rows; Tab goes on to the next section, from its top; `q` and
/// Esc end it all.
pub proof fn list_keys_move(s: AppModel, ctrl: bool, now: u64, code: KeyCode)
    requires
        s.mode is Normal,
        0 < s.rows(now).len() <= usize::MAX,
        s.selected < s.rows(now).len(),
    ensures
        ({
            let n = s.rows(now).len();
            let base = AppModel { status: None, g_pending: false, ..s };
            let down = code == KeyCode::Down || code == KeyCode::Char('j');
            let up = code == KeyCode::Up || code == KeyCode::Char('k');
            let (after, effect) = s.key(code, ctrl, now);
            &&& down && s.selected + 1 < n ==> after == (AppModel {
                selected: (s.selected + 1) as usize,
                ..base
            })
            &&& down && s.selected + 1 == n ==> after == base
            &&& up && s.selected > 0 ==> after == (AppModel {
                selected: (s.selected - 1) as usize,
                ..base
            })
            &&& up && s.selected == 0 ==> after == base
            &&& code == KeyCode::Char('G') ==> after == (AppModel {
                selected: (n - 1) as usize,
                ..base
            })
            &&& code == KeyCode::Char('g') && s.g_pending ==> after == (AppModel {
                selected: 0,
                ..base
            })
            &&& code == KeyCode::Char('g') && !s.g_pending ==> after == (AppModel {
                g_pending: true,
                ..base
            })
            &&& code == KeyCode::Tab ==> after == (AppModel {
                selected: 0,
                view: match s.view {
                    Section::Active => Section::Dormant,
                    Section::Dormant => Section::Done,
                    Section::Done => Section::Active,
                },
                ..base
            })
            &&& code == KeyCode::Char('q') || code == KeyCode::Esc ==> after == (AppModel {
                quit: true,
                ..base
            })
            &&& down || up || code == KeyCode::Char('G') || code == KeyCode::Char('g') || code
                == KeyCode::Tab || code == KeyCode::Char('q') || code == KeyCode::Esc ==> effect
                == EffectModel::Nothing
        }),
{
    rows_ignore_messages(s, now);
}

/// In the list, Space and `d` toggle, `r` revives, `x` and Delete delete, Enter and Right
/// expand or collapse what is highlighted; the tasks are saved where there was anything
/// to do to them.
#[verifier::rlimit(40)]
pub proof fn list_keys_act_on_the_highlighted(s: AppModel, ctrl: bool, now: u64, code: KeyCode)
    requires
        s.mode is Normal,
    ensures
        ({
            let row = s.selected_row(now);
            let (after, effect) = s.key(code, ctrl, now);
            let toggle = code == KeyCode::Char(' ') || code == KeyCode::Char('d');
            let delete = code == KeyCode::Char('x') || code == KeyCode::Delete;
            let open = code == KeyCode::Enter || code == KeyCode::Right;
            &&& toggle ==> after == (AppModel {
                status: None,
                g_pending: false,
                ..s.toggle_selected(now)
            })
            &&& toggle ==> effect == (if row is Some && !(row->0 is Note) {
                EffectModel::SaveTasks
            } else {
                EffectModel::Nothing
            })
            &&& code == KeyCode::Char('r') ==> after == (AppModel {
                status: None,
                g_pending: false,
                ..s.revive_selected(now)
            })
            &&& code == KeyCode::Char('r') ==> effect == (if row is Some && row->0 is Task {
                EffectModel::SaveTasks
            } else {
                EffectModel::Nothing
            })
            &&& delete ==> after == (AppModel {
                status: None,
                g_pending: false,
                ..s.remove_selected(now)
            })
            &&& delete ==> effect == (if row is Some {
                EffectModel::SaveTasks
            } else {
                EffectModel::Nothing
            })
            &&& open ==> after == (AppModel {
                status: None,
                g_pending: false,
                ..s.toggle_expand(now)
            })
            &&& open ==> effect == EffectModel::Nothing
        }),
{
    rows_ignore_messages(s, now);
    let base = AppModel { status: None, g_pending: false, ..s };
    let a = base.without_selected(now);
    let b = s.without_selected(now);
    rows_ignore_messages(b, now);
    assert(a == (AppModel { status: None, g_pending: false, ..b }));
    if let Some(Row::Task(ti)) = s.selected_row(now) {
        let t = s.tasks[ti as int];
        let u = s.with_task(ti, TaskModel { done: false, ..t }.touched(now));
        rows_ignore_messages(u, now);
        assert(base.with_task(ti, TaskModel { done: false, ..t }.touched(now)) == (AppModel {
            status: None,
            g_pending: false,
            ..u
        }));
    }
}

/// In the list, a key that nothing is bound to does nothing but end a pending `g` and
/// the last message.
pub proof fn list_keys_are_these(s: AppModel, ctrl: bool, now: u64, c: char)
    requires
        s.mode is Normal,
        c != 'q' && c != 'g' && c != 'G' && c != '/' && c != 'j' && c != 'k' && c != 'a' && c != 's'
            && c != 'n' && c != 'e' && c != 't' && c != 'd' && c != ' ' && c != 'r' && c != 'c' && c
            != 'b' && c != '?' && c != 'y' && c != 'x',
    ensures
        s.key(KeyCode::Char(c), ctrl, now) == (
            AppModel { status: None, g_pending: false, ..s },
            EffectModel::Nothing,
        ),
        s.key(KeyCode::Other, ctrl, now) == (
            AppModel { status: None, g_pending: false, ..s },
            EffectModel::Nothing,
        ),
        s.key(KeyCode::Left, ctrl, now) == (
            AppModel { status: None, g_pending: false, ..s },
            EffectModel::Nothing,
        ),
        s.key(KeyCode::Backspace, ctrl, now) == (
            AppModel { status: None, g_pending: false, ..s },
            EffectModel::Nothing,
        ),
        s.key(KeyCode::Home, ctrl, now) == (
            AppModel { status: None, g_pending: false, ..s },
            EffectModel::Nothing,
        ),
        s.key(KeyCode::End, ctrl, now) == (
            AppModel { status: None, g_pending: false, ..s },
            EffectModel::Nothing,
        ),
{
}

/// Whether the keyboard drives an input line.
pub open spec fn on_a_line(mode: ModeModel) -> bool {
    mode is Add || mode is Edit || mode is EditSub || mode is EditNote || mode is AddSub || mode
        is AddNote || mode is EditTags || mode is Search || mode is EditCfg || mode is AddBoard
        || mode is RenameBoard
}

/// On an input line, the keys that move the cursor move it by one or to an end, and
/// leave the line as it is.
pub proof fn line_keys_move_the_cursor(s: AppModel, ctrl: bool, now: u64)
    requires
        on_a_line(s.mode),
        s.cursor <= s.input.len() <= usize::MAX,
    ensures
        ({
            let left = s.key(KeyCode::Left, ctrl, now).0;
            let right = s.key(KeyCode::Right, ctrl, now).0;
            let home = s.key(KeyCode::Home, ctrl, now).0;
            let end = s.key(KeyCode::End, ctrl, now).0;
            let start = s.key(KeyCode::Char('a'), true, now).0;
            let stop = s.key(KeyCode::Char('e'), true, now).0;
            &&& left.input == s.input && right.input == s.input && home.input == s.input
            &&& end.input == s.input && start.input == s.input && stop.input == s.input
            &&& left.cursor == (if s.cursor > 0 {
                s.cursor - 1
            } else {
                0
            })
            &&& right.cursor == (if s.cursor < s.input.len() {
                s.cursor + 1
            } else {
                s.cursor as int
            })
            &&& home.cursor == 0 && start.cursor == 0
            &&& end.cursor == s.input.len() && stop.cursor == s.input.len()
        }),
{
}

/// On an input line, a character goes in at the cursor, Backspace takes out the one
/// before it, Delete the one at it, and Control-U all before it; what is on either side
/// stays.
pub proof fn line_keys_edit_at_the_cursor(s: AppModel, ctrl: bool, now: u64, c: char)
    requires
        on_a_line(s.mode),
        s.cursor <= s.input.len() < usize::MAX,
    ensures
        ({
            let before = s.input.take(s.cursor as int);
            let behind = s.input.skip(s.cursor as int);
            let typed = s.key(KeyCode::Char(c), false, now).0;
            let back = s.key(KeyCode::Backspace, ctrl, now).0;
            let del = s.key(KeyCode::Delete, ctrl, now).0;
            let kill = s.key(KeyCode::Char('u'), true, now).0;
            let other = s.key(KeyCode::Char(c), true, now).0;
            &&& typed.input == before + seq![c] + behind && typed.cursor == s.cursor + 1
            &&& s.cursor > 0 ==> back.input == s.input.take(s.cursor - 1) + behind && back.cursor
                == s.cursor - 1
            &&& s.cursor == 0 ==> back.input == s.input && back.cursor == 0
            &&& s.cursor < s.input.len() ==> del.input == before + s.input.skip(s.cursor + 1)
                && del.cursor == s.cursor
            &&& s.cursor == s.input.len() ==> del.input == s.input && del.cursor == s.cursor
            &&& kill.input == behind && kill.cursor == 0
            &&& c != 'a' && c != 'e' && c != 'u' ==> other.input == s.input && other.cursor
                == s.cursor
        }),
{
    let before = s.input.take(s.cursor as int);
    let behind = s.input.skip(s.cursor as int);
    assert(s.input.insert(s.cursor as int, c) =~= before + seq![c] + behind);
    if s.cursor > 0 {
        assert(s.input.remove(s.cursor - 1) =~= s.input.take(s.cursor - 1) + behind);
    }
    if s.cursor < s.input.len() {
        assert(s.input.remove(s.cursor as int) =~= before + s.input.skip(s.cursor + 1));
    }
}

/// On an input line, a key other than Enter and Esc changes the line, the cursor and
/// nothing else. Searching, it also puts the highlight on what the line finds, if it
/// finds anything.
#[verifier::rlimit(40)]
pub proof fn line_keys_change_the_line_only(s: AppModel, code: KeyCode, ctrl: bool, now: u64)
    requires
        on_a_line(s.mode),
        code != KeyCode::Enter,
        code != KeyCode::Esc,
    ensures
        ({
            let (after, effect) = s.key(code, ctrl, now);
            &&& effect == EffectModel::Nothing
            &&& after == (AppModel {
                input: after.input,
                cursor: after.cursor,
                selected: after.selected,
                ..s
            })
            &&& !(s.mode is Search) ==> after.selected == s.selected
            &&& s.mode is Search ==> (match s.find_match(after.input, now) {
                Some(q) => after.selected == q,
                None => after.selected == s.selected,
            })
        }),
{
    let t = s.typed(code, ctrl);
    line_keys_type(s, code, ctrl);
    rows_ignore_the_line(s, t.input, t.cursor, now);
    guarantees::typing_changes_the_line_only(s, code, ctrl, now);
    assert(s.key(code, ctrl, now) == s.input_key(code, ctrl, now));
    assert(s.input_key(code, ctrl, now).0 == t.following_search(now));
}

/// Typing changes the line and the cursor only.
proof fn line_keys_type(s: AppModel, code: KeyCode, ctrl: bool)
    ensures
        ({
            let t = s.typed(code, ctrl);
            t == (AppModel { input: t.input, cursor: t.cursor, ..s })
        }),
{
}

/// The input line does not bear on the rows, nor on what a query finds.
proof fn rows_ignore_the_line(s: AppModel, line: Seq<char>, cursor: usize, now: u64)
    ensures
        ({
            let t = AppModel { input: line, cursor, ..s };
            t.find_match(line, now) == s.find_match(line, now)
        }),
{
    let t = AppModel { input: line, cursor, ..s };
    assert(t.rows(now) == s.rows(now));
}

/// Enter on an input line that is not blank does what the line was opened for, with the
/// line trimmed, saves the tasks and goes back to the list. A blank line changes nothing,
/// but for tags, which it clears.
pub proof fn enter_submits_the_line(s: AppModel, ctrl: bool, now: u64, id: u64, k: usize)
    ensures
        ({
            let (after, effect) = s.key(KeyCode::Enter, ctrl, now);
            let line = text::trim(s.input);
            let some = line.len() > 0;
            let plain = s.mode == ModeModel::Add || s.mode == ModeModel::Edit(id) || s.mode
                == ModeModel::EditSub(id, k) || s.mode == ModeModel::EditNote(id, k) || s.mode
                == ModeModel::AddSub(id) || s.mode == ModeModel::AddNote(id);
            &&& plain && some || s.mode == ModeModel::EditTags(id) ==> effect
                == EffectModel::SaveTasks
            &&& plain && !some ==> effect == EffectModel::Nothing && after == (AppModel {
                mode: ModeModel::Normal,
                input: Seq::empty(),
                cursor: 0,
                ..s
            })
            &&& s.mode == ModeModel::Add && some ==> after == (AppModel {
                mode: ModeModel::Normal,
                input: Seq::empty(),
                cursor: 0,
                ..s.add_task(line, now)
            })
            &&& s.mode == ModeModel::Edit(id) && some ==> after == (AppModel {
                mode: ModeModel::Normal,
                input: Seq::empty(),
                cursor: 0,
                ..s.apply_edit(id, line, now)
            })
            &&& s.mode == ModeModel::EditSub(id, k) && some ==> after == (AppModel {
                mode: ModeModel::Normal,
                input: Seq::empty(),
                cursor: 0,
                ..s.apply_edit_sub(id, k, line, now)
            })
            &&& s.mode == ModeModel::EditNote(id, k) && some ==> after == (AppModel {
                mode: ModeModel::Normal,
                input: Seq::empty(),
                cursor: 0,
                ..s.apply_edit_note(id, k, line, now)
            })
            &&& s.mode == ModeModel::AddSub(id) && some ==> after == (AppModel {
                mode: ModeModel::Normal,
                input: Seq::empty(),
                cursor: 0,
                ..s.add_subtask(id, line, now)
            })
            &&& s.mode == ModeModel::AddNote(id) && some ==> after == (AppModel {
                mode: ModeModel::Normal,
                input: Seq::empty(),
                cursor: 0,
                ..s.add_note(id, line, now)
            })
            &&& s.mode == ModeModel::EditTags(id) ==> after == (AppModel {
                mode: ModeModel::Normal,
                input: Seq::empty(),
                cursor: 0,
                ..s.apply_tags(id, line, now)
            })
        }),
{
}

/// Enter ends a search where it is; on a setting it sets what the line reads as, and
/// asks for that to be saved, or says why not and keeps the line; on a board's name it
/// asks for the board to be made or moved, under the name that the line is.
pub proof fn enter_submits_settings_and_boards(
    s: AppModel,
    ctrl: bool,
    now: u64,
    f: CfgField,
    was: Seq<char>,
)
    ensures
        ({
            let (after, effect) = s.key(KeyCode::Enter, ctrl, now);
            let set = settings::applied(s.cfg, s.board, s.cfg_scope, f, s.input);
            let name = model::board_name_of(s.input);
            let cleared = AppModel { input: Seq::empty(), cursor: 0, ..s };
            &&& s.mode == ModeModel::Search ==> after == (AppModel {
                mode: ModeModel::Normal,
                ..cleared
            }) && effect == EffectModel::Nothing
            &&& s.mode == ModeModel::EditCfg(f) && set is Ok ==> after == (AppModel {
                cfg: set->Ok_0,
                theme: theme::theme_named(set->Ok_0.effective(s.board).theme),
                mode: ModeModel::Config,
                ..cleared
            }) && effect == (EffectModel::SaveConfig { report: true })
            &&& s.mode == ModeModel::EditCfg(f) && set is Err ==> after == (AppModel {
                status: Some(set->Err_0),
                ..s
            }) && effect == EffectModel::Nothing
            &&& s.mode == ModeModel::AddBoard && name is Ok ==> after == cleared && effect
                == EffectModel::CreateBoard(name->Ok_0)
            &&& s.mode == (ModeModel::RenameBoard { old_name: was }) && name is Ok ==> after
                == cleared && effect == (if name->Ok_0 == was {
                EffectModel::ListBoards { save_config: false }
            } else {
                EffectModel::RenameBoard { from: was, to: name->Ok_0 }
            })
            &&& (s.mode == ModeModel::AddBoard || s.mode == (ModeModel::RenameBoard {
                old_name: was,
            })) && name is Err ==> after == (AppModel { status: Some(name->Err_0), ..cleared })
                && effect == EffectModel::Nothing
        }),
{
    text::trimming_is_idempotent(s.input);
}

/// Esc leaves an input line for where it was opened, empties it, and changes nothing.
pub proof fn escape_leaves_the_line(s: AppModel, ctrl: bool, now: u64)
    requires
        on_a_line(s.mode),
    ensures
        ({
            let (after, effect) = s.key(KeyCode::Esc, ctrl, now);
            let boards = s.mode is AddBoard || s.mode is RenameBoard;
            &&& after == (AppModel {
                input: Seq::empty(),
                cursor: 0,
                mode: if s.mode is EditCfg {
                    ModeModel::Config
                } else if boards {
                    s.mode
                } else {
                    ModeModel::Normal
                },
                ..s
            })
            &&& effect == (if boards {
                EffectModel::ListBoards { save_config: false }
            } else {
                EffectModel::Nothing
            })
        }),
{
}

/// Any key closes the help, and does nothing else.
pub proof fn any_key_closes_the_help(s: AppModel, code: KeyCode, ctrl: bool, now: u64)
    requires
        s.mode is Help,
    ensures
        s.key(code, ctrl, now) == (
            AppModel { mode: ModeModel::Normal, ..s },
            EffectModel::Nothing,
        ),
{
}

/// Among the settings, the keys move the highlight by one, never off the five, Tab goes
/// from one scope to the other, Enter puts the highlighted value on the input line, and
/// `q`, `c` and Esc go back.
pub proof fn setting_keys(s: AppModel, code: KeyCode, ctrl: bool, now: u64, f: CfgField)
    requires
        s.mode is Config,
        s.cfg_sel < 5,
        f == (if s.cfg_sel == 0 {
            CfgField::HotWindow
        } else if s.cfg_sel == 1 {
            CfgField::DormantAfter
        } else if s.cfg_sel == 2 {
            CfgField::BubbleAfter
        } else if s.cfg_sel == 3 {
            CfgField::TickFps
        } else {
            CfgField::Theme
        }),
    ensures
        ({
            let (after, effect) = s.key(code, ctrl, now);
            let base = AppModel { status: None, ..s };
            let down = code == KeyCode::Down || code == KeyCode::Char('j');
            let up = code == KeyCode::Up || code == KeyCode::Char('k');
            let back = code == KeyCode::Char('q') || code == KeyCode::Char('c') || code
                == KeyCode::Esc;
            let value = if s.cfg_scope == Scope::Global {
                settings::shown_value(s.cfg, f)
            } else if s.cfg.boards.contains_key(s.board) {
                settings::raw_override(s.cfg.boards[s.board], f)
            } else {
                Seq::empty()
            };
            &&& effect == EffectModel::Nothing
            &&& back ==> after == (AppModel { mode: ModeModel::Normal, ..base })
            &&& code == KeyCode::Tab ==> after == (AppModel {
                cfg_scope: if s.cfg_scope == Scope::Global {
                    Scope::Board
                } else {
                    Scope::Global
                },
                ..base
            })
            &&& down && s.cfg_sel < 4 ==> after == (AppModel {
                cfg_sel: (s.cfg_sel + 1) as usize,
                ..base
            })
            &&& down && s.cfg_sel == 4 ==> after == base
            &&& up && s.cfg_sel > 0 ==> after == (AppModel {
                cfg_sel: (s.cfg_sel - 1) as usize,
                ..base
            })
            &&& up && s.cfg_sel == 0 ==> after == base
            &&& code == KeyCode::Enter && s.cfg_scope == Scope::Board && f == CfgField::TickFps
                ==> after == (AppModel { status: Some("tick_fps is global-only"@), ..s })
            &&& code == KeyCode::Enter && !(s.cfg_scope == Scope::Board && f == CfgField::TickFps)
                ==> after == (AppModel {
                mode: ModeModel::EditCfg(f),
                input: value,
                cursor: value.len() as usize,
                ..base
            })
            &&& !(back || down || up || code == KeyCode::Tab || code == KeyCode::Enter) ==> after
                == base
        }),
{
    let value = settings::raw_override(settings::overrides_of(s.cfg, s.board), f);
    if !s.cfg.boards.contains_key(s.board) {
        assert(value =~= Seq::empty());
    }
}

/// In the board picker, the keys move the highlight by one, never off the names; Enter
/// asks for the highlighted board, `r` puts its name on the input line, `x` and Delete
/// ask whether it may be deleted; `a` opens the line for a new one, and `q` and Esc go
/// back.
pub proof fn picker_keys(
    s: AppModel,
    code: KeyCode,
    ctrl: bool,
    now: u64,
    names: Seq<Seq<char>>,
    sel: usize,
)
    requires
        s.mode == (ModeModel::Boards { names, sel }),
        sel < names.len() <= usize::MAX,
    ensures
        ({
            let (after, effect) = s.key(code, ctrl, now);
            let base = AppModel { status: None, ..s };
            let name = names[sel as int];
            let down = code == KeyCode::Down || code == KeyCode::Char('j');
            let up = code == KeyCode::Up || code == KeyCode::Char('k');
            let back = code == KeyCode::Char('q') || code == KeyCode::Esc;
            let delete = code == KeyCode::Char('x') || code == KeyCode::Delete;
            &&& effect == (if code == KeyCode::Enter {
                EffectModel::LoadBoard(name)
            } else if delete {
                EffectModel::GuardDelete(name)
            } else {
                EffectModel::Nothing
            })
            &&& code == KeyCode::Enter || delete ==> after == base
            &&& back ==> after == (AppModel { mode: ModeModel::Normal, ..base })
            &&& down && sel + 1 < names.len() ==> after == (AppModel {
                mode: ModeModel::Boards { names, sel: (sel + 1) as usize },
                ..base
            })
            &&& down && sel + 1 == names.len() ==> after == base
            &&& up && sel > 0 ==> after == (AppModel {
                mode: ModeModel::Boards { names, sel: (sel - 1) as usize },
                ..base
            })
            &&& up && sel == 0 ==> after == base
            &&& code == KeyCode::Char('a') ==> after == (AppModel {
                mode: ModeModel::AddBoard,
                input: Seq::empty(),
                cursor: 0,
                ..base
            })
            &&& code == KeyCode::Char('r') ==> after == (AppModel {
                mode: ModeModel::RenameBoard { old_name: name },
                input: name,
                cursor: name.len() as usize,
                ..base
            })
            &&& !(down || up || back || delete || code == KeyCode::Enter || code == KeyCode::Char(
                'a',
            ) || code == KeyCode::Char('r')) ==> after == base
        }),
{
}

/// Where deleting a board is to be confirmed, `y` asks for it, `n`, `q` and Esc ask for
/// the boards again, and no other key does anything.
pub proof fn confirmation_keys(s: AppModel, code: KeyCode, ctrl: bool, now: u64, name: Seq<char>)
    requires
        s.mode == (ModeModel::ConfirmDeleteBoard { name }),
    ensures
        s.key(code, ctrl, now).0 == s,
        s.key(code, ctrl, now).1 == (if code == KeyCode::Char('y') || code == KeyCode::Char('Y') {
            EffectModel::RemoveBoard(name)
        } else if code == KeyCode::Char('n') || code == KeyCode::Char('N') || code
            == KeyCode::Char('q') || code == KeyCode::Esc {
            EffectModel::ListBoards { save_config: false }
        } else {
            EffectModel::Nothing
        }),
{
}

/// The picker opens on the boards that were listed, or, if the active one is not among
/// them, on those and the active one in dictionary order. It highlights the active one
/// at its first place, and nothing else changes.
pub proof fn picker_opens_on_the_listed_boards(s: AppModel, listed: Seq<Seq<char>>) -> (r: (
    Seq<Seq<char>>,
    usize,
))
    requires
        listed.len() < usize::MAX,
    ensures
        s.open_boards(listed) == (AppModel {
            mode: ModeModel::Boards { names: r.0, sel: r.1 },
            ..s
        }),
        listed.contains(s.board) ==> r.0 == listed,
        !listed.contains(s.board) ==> r.0.to_multiset() == listed.push(s.board).to_multiset(),
        !listed.contains(s.board) ==> forall|i: int, j: int|
            0 <= i < j < r.0.len() ==> !text::text_lt(#[trigger] r.0[j], #[trigger] r.0[i]),
        r.1 < r.0.len(),
        r.0[r.1 as int] == s.board,
        forall|j: int| 0 <= j < r.1 ==> #[trigger] r.0[j] != s.board,
{
    let names = s.board_names(listed);
    guarantees::picker_lists_the_active_board(s, listed);
    if !listed.contains(s.board) {
        text::sorting_is_possible(listed.push(s.board));
        assert forall|i: int, j: int| 0 <= i < j < names.len() implies !text::text_lt(
            #[trigger] names[j],
            #[trigger] names[i],
        ) by {
            assert(text::text_le(names[i], names[j]));
            text::text_order_total(names[i], names[j]);
        }
    }
    let sel = match keys::find_text(names, s.board) {
        Some(i) => i,
        None => 0,
    };
    assert(names.len() <= usize::MAX) by {
        if !listed.contains(s.board) {
            let all = listed.push(s.board);
            all.to_multiset_ensures();
            names.to_multiset_ensures();
        }
    }
    first_text_is_found(names, s.board);
    (names, sel)
}

/// The place found is the first.
pub(crate) proof fn first_text_is_found(list: Seq<Seq<char>>, t: Seq<char>)
    requires
        list.len() <= usize::MAX,
    ensures
        match keys::find_text(list, t) {
            Some(i) => i < list.len() && list[i as int] == t && forall|j: int|
                0 <= j < i ==> #[trigger] list[j] != t,
            None => forall|j: int| 0 <= j < list.len() ==> #[trigger] list[j] != t,
        },
    decreases list.len(),
{
    if list.len() > 0 {
        let init = list.drop_last();
        first_text_is_found(init, t);
        assert forall|j: int| 0 <= j < list.len() - 1 implies #[trigger] list[j] == init[j] by {}
    }
}

/// The active board is not deleted, nor the only one; any other is asked about.
pub proof fn deletions_are_asked_about(s: AppModel, name: Seq<char>, listed: Seq<Seq<char>>)
    ensures
        ({
            let after = s.guard_delete(name, listed);
            let many = listed.len() > 1 || (listed.len() == 1 && listed[0] != s.board);
            &&& name == s.board ==> after == (AppModel {
                status: Some("cannot delete the active board"@),
                ..s
            })
            &&& name != s.board && many ==> after == (AppModel {
                mode: ModeModel::ConfirmDeleteBoard { name },
                ..s
            })
            &&& name != s.board && !many ==> after == (AppModel {
                status: Some("cannot delete the only board"@),
                ..s
            })
        }),
{
    let all = listed.push(s.board);
    let names = s.board_names(listed);
    text::sorting_is_possible(all);
    all.to_multiset_ensures();
    text::in_dictionary_order(all).to_multiset_ensures();
    if listed.contains(s.board) {
        let k = choose|k: int| 0 <= k < listed.len() && listed[k] == s.board;
        assert(listed.len() == 1 ==> listed[0] == s.board);
    } else {
        if listed.len() == 1 && listed[0] == s.board {
            assert(listed.contains(listed[0]));
        }
        assert(names.len() == listed.len() + 1);
    }
}

/// A board that was loaded is shown from the top of its active section, nothing
/// expanded, under its own settings, and is the active one from there on, which is
/// saved; all else stays.
pub proof fn loaded_boards_are_shown(s: AppModel, name: Seq<char>, tasks: Seq<TaskModel>)
    ensures
        ({
            let (after, effect) = s.switch_board(name, Ok(tasks));
            let cfg = ConfigModel { active_board: name, ..s.cfg };
            &&& after == (AppModel {
                tasks,
                board: name,
                cfg,
                theme: theme::theme_named(cfg.effective(name).theme),
                selected: 0,
                expanded: Set::empty(),
                view: Section::Active,
                mode: ModeModel::Normal,
                status: Some("switched to "@ + name),
                ..s
            })
            &&& effect == (EffectModel::SaveConfig { report: false })
        }),
{
}

/// A board that was made is loaded; one that there was already, or that could not be
/// made, is not, and that is said.
pub proof fn made_boards_are_loaded(s: AppModel, name: Seq<char>, e: String)
    ensures
        s.create_board(name, FileOutcome::Done) == (s, EffectModel::LoadBoard(name)),
        s.create_board(name, FileOutcome::Exists) == (
            AppModel { status: Some("board '"@ + name + "' already exists"@), ..s },
            EffectModel::Nothing,
        ),
        s.create_board(name, FileOutcome::Failed(e)) == (
            AppModel { status: Some("save failed: "@ + e@), ..s },
            EffectModel::Nothing,
        ),
{
}

/// A board that was moved keeps its overrides under the new name and stays the active one
/// if it was; one that could not be moved stays as it is, and that is said.
pub proof fn moved_boards_keep_their_settings(
    s: AppModel,
    from: Seq<char>,
    to: Seq<char>,
    e: String,
)
    ensures
        ({
            let (after, effect) = s.rename_board(from, to, FileOutcome::Done);
            let boards = if s.cfg.boards.contains_key(from) {
                s.cfg.boards.remove(from).insert(to, s.cfg.boards[from])
            } else {
                s.cfg.boards
            };
            &&& effect == (EffectModel::ListBoards { save_config: true })
            &&& s.board == from ==> after == (AppModel {
                board: to,
                cfg: ConfigModel { boards, active_board: to, ..s.cfg },
                status: Some("renamed to "@ + to),
                ..s
            })
            &&& s.board != from ==> after == (AppModel {
                cfg: ConfigModel { boards, ..s.cfg },
                status: Some("renamed to "@ + to),
                ..s
            })
        }),
        s.rename_board(from, to, FileOutcome::Exists) == (
            AppModel { status: Some("board '"@ + to + "' already exists"@), ..s },
            EffectModel::Nothing,
        ),
        s.rename_board(from, to, FileOutcome::Failed(e)) == (
            AppModel { status: Some("rename failed: "@ + e@), ..s },
            EffectModel::Nothing,
        ),
{
}

/// A board that was deleted loses its overrides, which is saved if it had any; one that
/// could not be deleted keeps them, and that is said. The boards are listed again.
pub proof fn deleted_boards_lose_their_settings(s: AppModel, name: Seq<char>, e: Seq<char>)
    ensures
        s.delete_board(name, None) == (
            AppModel {
                cfg: ConfigModel { boards: s.cfg.boards.remove(name), ..s.cfg },
                status: Some("deleted "@ + name),
                ..s
            },
            EffectModel::ListBoards { save_config: s.cfg.boards.contains_key(name) },
        ),
        s.delete_board(name, Some(e)) == (
            AppModel { status: Some("delete failed: "@ + e), ..s },
            EffectModel::ListBoards { save_config: false },
        ),
{
}

/// A failure is shown behind what it was a failure of, success is not shown, and time
/// only counts frames, from the largest on from zero.
pub proof fn failures_are_shown(s: AppModel, lead: Seq<char>, e: Seq<char>)
    ensures
        s.reported(lead, Some(e)) == (AppModel { status: Some(lead + e), ..s }),
        s.reported(lead, None) == s,
        s.frame < u64::MAX ==> s.ticked() == (AppModel { frame: (s.frame + 1) as u64, ..s }),
        s.frame == u64::MAX ==> s.ticked() == (AppModel { frame: 0, ..s }),
{
}

/// The list starts on the active board, under its settings, at the top of its active
/// section, with nothing open and nothing said.
pub proof fn lists_start_at_the_top(cfg: ConfigModel, tasks: Seq<TaskModel>)
    ensures
        ({
            let s = AppModel::started(cfg, tasks);
            &&& s.cfg == cfg && s.tasks == tasks && s.board == cfg.active_board
            &&& s.theme == theme::theme_named(cfg.effective(cfg.active_board).theme)
            &&& s.view == Section::Active && s.selected == 0 && s.mode is Normal
            &&& s.expanded == Set::<u64>::empty() && s.input.len() == 0 && s.cursor == 0
            &&& s.status is None && !s.g_pending && !s.quit && s.frame == 0
            &&& s.cfg_sel == 0 && s.cfg_scope == Scope::Global
        }),
{
}

/// Frames come as many a second as are asked for, as nearly as whole milliseconds allow
/// without coming later; one a second where none is asked for.
pub proof fn frames_come_as_asked(fps: u32)
    ensures
        fps == 0 ==> keys::millis_of(fps) == 1000,
        fps > 0 ==> keys::millis_of(fps) * fps <= 1000 < (keys::millis_of(fps) + 1) * fps,
{
    if fps > 0 {
        let r = 1000u32 / fps;
        assert(r * fps <= 1000 < (r + 1) * fps) by (nonlinear_arith)
            requires
                fps > 0,
                r == 1000u32 / fps,
        ;
    }
}

/// A task is added by a line for one that is not all white space, and can be as long as no
/// task has the greatest id that there is.
pub proof fn tasks_can_be_added(s: AppModel)
    ensures
        s.adds_a_task() <==> s.mode is Add && exists|k: int|
            0 <= k < s.input.len() && !text::is_white(#[trigger] s.input[k]),
        s.has_free_id() <==> forall|j: int|
            0 <= j < s.tasks.len() ==> (#[trigger] s.tasks[j]).id < u64::MAX,
{
    let (i, j) = text_laws::trimming_cuts_off_white_space(s.input);
    if i < j {
        assert(!text::is_white(s.input[i]));
    }
    let top = task_laws::greatest_id_is_some_tasks(s.tasks);
    if s.tasks.len() > 0 {
        assert(s.tasks[top].id == model::max_id(s.tasks));
    }
}

} // verus!
