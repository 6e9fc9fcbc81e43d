//! What is on screen: the text of every line, and what it is colored by. Turning
//! this into terminal cells is left to the front end.

use crate::app::{App, AppModel, Mode, ModeModel, Row, Section};
use crate::app;
use crate::cli;
use crate::keys;
use crate::model;
use crate::model::{Status, Task, TaskModel, Timestamp};
use crate::settings;
use crate::settings::{CfgField, Scope, CFG_FIELD_COUNT};
use crate::text;
use crate::theme;
use vstd::prelude::*;
use vstd::string::*;

verus! {

/// What a row is colored by.
#[derive(Debug, Clone, Copy, PartialEq, Eq, Structural)]
pub enum Tone {
    /// The hot color, breathing, bold.
    Hot,
    /// The bubble color, breathing, bold.
    Bubbling,
    /// From fresh to stale by age.
    Decaying,
    /// The dormant color, dim.
    Dormant,
    /// The subtask color.
    SubTask,
    /// The note color, in italics.
    Note,
}

/// One row of the list.
#[derive(Debug, PartialEq, Eq)]
pub struct RowLine {
    pub text: String,
    /// The task's tags, in the tag color; empty without any.
    pub chips: String,
    pub tone: Tone,
    /// The task's age in seconds, for a decaying one.
    pub age: u64,
    /// Crossed out and dim.
    pub struck: bool,
}

/// What a row of the list holds.
pub struct RowLineModel {
    pub text: Seq<char>,
    pub chips: Seq<char>,
    pub tone: Tone,
    pub age: u64,
    pub struck: bool,
}

impl View for RowLine {
    type V = RowLineModel;

    open spec fn view(&self) -> RowLineModel {
        RowLineModel {
            text: self.text@,
            chips: self.chips@,
            tone: self.tone,
            age: self.age,
            struck: self.struck,
        }
    }
}

/// The glyph before a task that is not done, and what its row is colored by.
pub open spec fn mark_and_tone(st: Status, frame: u64) -> (Seq<char>, Tone) {
    match st {
        Status::Hot => ("·"@, Tone::Hot),
        Status::Bubbling => (theme::bubble_of(frame), Tone::Bubbling),
        Status::Decaying => ("·"@, Tone::Decaying),
        Status::Dormant => ("·"@, Tone::Dormant),
    }
}

/// The glyph before a task that is not done, and what its row is colored by.
pub fn row_style(st: Status, frame: u64) -> (r: (&'static str, Tone))
    ensures
        (r.0@, r.1) == mark_and_tone(st, frame),
{
    match st {
        Status::Hot => ("·", Tone::Hot),
        Status::Bubbling => (theme::bubble_glyph(frame), Tone::Bubbling),
        Status::Decaying => ("·", Tone::Decaying),
        Status::Dormant => ("·", Tone::Dormant),
    }
}

/// What follows a task's title: a caret if there is anything to expand, the
/// progress of the subtasks, and the number of notes.
pub open spec fn expand_hint(t: TaskModel, expanded: bool) -> Seq<char> {
    if t.subtasks.len() > 0 || t.notes.len() > 0 {
        " "@ + (if expanded {
            "▾"@
        } else {
            "▸"@
        }) + cli::progress_of(t.subtasks_done(), t.subtasks.len()) + (if t.notes.len() > 0 {
            " ✎"@ + text::decimal(t.notes.len())
        } else {
            Seq::empty()
        })
    } else {
        Seq::empty()
    }
}

/// What follows a task's title.
fn expand_text(t: &Task, expanded: bool) -> (r: String)
    ensures
        r@ == expand_hint(t@, expanded),
{
    let (done, total) = t.progress();
    let notes: usize = t.notes.len();
    if total == 0 && notes == 0 {
        return String::new();
    }
    let mut r = " ".to_owned();
    r.append(if expanded {
        "▾"
    } else {
        "▸"
    });
    r.append(cli::progress_text(done, total).as_str());
    let mut tail = String::new();
    if notes > 0 {
        tail = " ✎".to_owned();
        tail.append(text::to_decimal(notes as u64).as_str());
    }
    r.append(tail.as_str());
    r
}

impl AppModel {
    /// A row of the list.
    pub open spec fn row_line(self, row: Row, now: u64) -> RowLineModel {
        match row {
            Row::Task(ti) => {
                let t = self.tasks[ti as int];
                let (mark, tone) = mark_and_tone(t.status(self.thresholds(), now), self.frame);
                RowLineModel {
                    text: (if t.done {
                        "✓"@
                    } else {
                        mark
                    }) + " "@ + t.title + expand_hint(t, self.expanded.contains(t.id)),
                    chips: cli::tag_suffix_of(t.tags),
                    tone,
                    age: t.age(now) as u64,
                    struck: t.done,
                }
            },
            Row::Sub(ti, si) => {
                let s = self.tasks[ti as int].subtasks[si as int];
                RowLineModel {
                    text: "    ↳ "@ + (if s.done {
                        "✓"@
                    } else {
                        "·"@
                    }) + " "@ + s.title,
                    chips: Seq::empty(),
                    tone: Tone::SubTask,
                    age: 0,
                    struck: s.done,
                }
            },
            Row::Note(ti, ni) => RowLineModel {
                text: "    ✎ "@ + self.tasks[ti as int].notes[ni as int].text,
                chips: Seq::empty(),
                tone: Tone::Note,
                age: 0,
                struck: false,
            },
        }
    }

    /// The rows of the list.
    pub open spec fn row_lines(self, now: u64) -> Seq<RowLineModel> {
        Seq::new(self.rows(now).len(), |i: int| self.row_line(self.rows(now)[i], now))
    }

    /// The heading of the list.
    pub open spec fn list_title(self, now: u64) -> Seq<char> {
        (match self.view {
            Section::Active => " active ("@,
            Section::Dormant => " dormant ("@,
            Section::Done => " done ("@,
        }) + text::decimal(self.visible(now).len()) + ") "@
    }
}

/// What rows of the list hold.
pub open spec fn row_line_models(s: Seq<RowLine>) -> Seq<RowLineModel> {
    Seq::new(s.len(), |i: int| s[i]@)
}

impl AppModel {
    /// The row to highlight among `rows` listed ones.
    pub open spec fn highlighted(self, rows: nat) -> Option<usize> {
        if rows == 0 {
            None
        } else {
            Some(app::clamped(self.selected, rows))
        }
    }

    /// The line below the banner.
    pub open spec fn subtitle_text(self) -> Seq<char> {
        "« zymosis — "@ + self.board + " »"@
    }
}

impl App {
    /// A row of the list.
    fn row_line_at(&self, row: Row, now: Timestamp) -> (r: RowLine)
        requires
            app::row_in_range(self@.tasks, row),
        ensures
            r@ == self@.row_line(row, now),
    {
        broadcast use vstd::std_specs::hash::group_hash_axioms;

        match row {
            Row::Task(ti) => {
                let th = self.ecfg().thresholds();
                let t = &self.tasks[ti];
                assert(self@.tasks[ti as int] == t@);
                let (mark, tone) = row_style(t.status(&th, now), self.frame);
                let mut line = (if t.done {
                    "✓"
                } else {
                    mark
                }).to_owned();
                line.append(" ");
                line.append(t.title.as_str());
                line.append(expand_text(t, self.expanded.contains(&t.id)).as_str());
                RowLine {
                    text: line,
                    chips: cli::tag_suffix(t),
                    tone,
                    age: t.age(now),
                    struck: t.done,
                }
            },
            Row::Sub(ti, si) => {
                let t = &self.tasks[ti];
                assert(self@.tasks[ti as int] == t@);
                let s = &t.subtasks[si];
                assert(t@.subtasks[si as int] == s@);
                let mut line = "    ↳ ".to_owned();
                line.append(if s.done {
                    "✓"
                } else {
                    "·"
                });
                line.append(" ");
                line.append(s.title.as_str());
                RowLine {
                    text: line,
                    chips: String::new(),
                    tone: Tone::SubTask,
                    age: 0,
                    struck: s.done,
                }
            },
            Row::Note(ti, ni) => {
                let t = &self.tasks[ti];
                assert(self@.tasks[ti as int] == t@);
                let n = &t.notes[ni];
                assert(t@.notes[ni as int] == n@);
                let mut line = "    ✎ ".to_owned();
                line.append(n.text.as_str());
                RowLine {
                    text: line,
                    chips: String::new(),
                    tone: Tone::Note,
                    age: 0,
                    struck: false,
                }
            },
        }
    }

    /// The rows of the list.
    pub fn row_lines_at(&self, now: Timestamp) -> (r: Vec<RowLine>)
        ensures
            row_line_models(r@) == self@.row_lines(now),
    {
        let rows = self.rows_at(now);
        let mut out: Vec<RowLine> = Vec::new();
        let mut i: usize = 0;
        while i < rows.len()
            invariant
                i <= rows@.len(),
                rows@ == self@.rows(now),
                forall|q: int|
                    0 <= q < rows@.len() ==> app::row_in_range(self@.tasks, #[trigger] rows@[q]),
                out@.len() == i,
                forall|j: int| 0 <= j < i ==> (#[trigger] out@[j])@ == self@.row_line(rows@[j], now),
            decreases rows@.len() - i,
        {
            out.push(self.row_line_at(rows[i], now));
            i += 1;
        }
        assert(row_line_models(out@) =~= self@.row_lines(now));
        out
    }

    /// The row to highlight among `rows` listed ones.
    pub fn list_cursor(&self, rows: usize) -> (r: Option<usize>)
        ensures
            r == self@.highlighted(rows as nat),
    {
        if rows == 0 {
            None
        } else if self.selected < rows {
            Some(self.selected)
        } else {
            Some(rows - 1)
        }
    }

    /// The heading of the list.
    pub fn list_title_at(&self, now: Timestamp) -> (r: String)
        ensures
            r@ == self@.list_title(now),
    {
        let count: usize = self.visible_at(now).len();
        let mut r = (match self.view {
            Section::Active => " active (",
            Section::Dormant => " dormant (",
            Section::Done => " done (",
        }).to_owned();
        r.append(text::to_decimal(count as u64).as_str());
        r.append(") ");
        r
    }

    /// The line below the banner.
    pub fn subtitle(&self) -> (r: String)
        ensures
            r@ == self@.subtitle_text(),
    {
        let mut r = "« zymosis — ".to_owned();
        r.append(self.board.as_str());
        r.append(" »");
        r
    }
}

/// The last line of the screen.
#[derive(Debug, PartialEq, Eq)]
pub enum Footer {
    /// The input line, behind this prompt.
    Prompt(String),
    /// A message.
    Message(String),
    /// What the keys do.
    Hint(String),
}

/// What the last line of the screen holds.
pub enum FooterModel {
    Prompt(Seq<char>),
    Message(Seq<char>),
    Hint(Seq<char>),
}

impl View for Footer {
    type V = FooterModel;

    open spec fn view(&self) -> FooterModel {
        match self {
            Footer::Prompt(s) => FooterModel::Prompt(s@),
            Footer::Message(s) => FooterModel::Message(s@),
            Footer::Hint(s) => FooterModel::Hint(s@),
        }
    }
}

/// A message if there is one, otherwise a hint.
pub open spec fn message_or(status: Option<Seq<char>>, hint: Seq<char>) -> FooterModel {
    match status {
        Some(m) => FooterModel::Message(m),
        None => FooterModel::Hint(hint),
    }
}

impl AppModel {
    /// The last line of the screen.
    pub open spec fn footer(self) -> FooterModel {
        match self.mode {
            ModeModel::Add => FooterModel::Prompt("add> "@),
            ModeModel::AddSub(_) => FooterModel::Prompt("subtask> "@),
            ModeModel::AddNote(_) => FooterModel::Prompt("note> "@),
            ModeModel::Edit(_) => FooterModel::Prompt("edit> "@),
            ModeModel::EditSub(_, _) => FooterModel::Prompt("edit subtask> "@),
            ModeModel::EditNote(_, _) => FooterModel::Prompt("edit note> "@),
            ModeModel::EditTags(_) => FooterModel::Prompt("tags> "@),
            ModeModel::AddBoard => FooterModel::Prompt("new board> "@),
            ModeModel::RenameBoard { .. } => FooterModel::Prompt("rename> "@),
            ModeModel::Search => FooterModel::Prompt("/"@),
            ModeModel::EditCfg(f) => match self.status {
                None => FooterModel::Prompt(f.label_text() + "> "@),
                Some(m) => FooterModel::Message(m),
            },
            ModeModel::Config => message_or(
                self.status,
                "↑↓ select · tab scope · enter edit · esc back"@,
            ),
            ModeModel::Boards { .. } => message_or(
                self.status,
                "enter switch · a add · r rename · x delete · esc close"@,
            ),
            ModeModel::ConfirmDeleteBoard { .. } => FooterModel::Hint("y confirm · n/esc cancel"@),
            ModeModel::Help => FooterModel::Hint("any key to close"@),
            ModeModel::Normal => message_or(
                self.status,
                "? help · a add · e edit · b boards · space done · tab view · q quit"@,
            ),
        }
    }
}

impl App {
    /// A message if there is one, otherwise a hint.
    fn message_or(&self, hint: &str) -> (r: Footer)
        ensures
            r@ == message_or(self@.status, hint@),
    {
        match &self.status {
            Some(m) => Footer::Message(m.clone()),
            None => Footer::Hint(hint.to_owned()),
        }
    }

    /// The last line of the screen.
    pub fn footer(&self) -> (r: Footer)
        ensures
            r@ == self@.footer(),
    {
        match self.mode {
            Mode::Add => Footer::Prompt("add> ".to_owned()),
            Mode::AddSub(_) => Footer::Prompt("subtask> ".to_owned()),
            Mode::AddNote(_) => Footer::Prompt("note> ".to_owned()),
            Mode::Edit(_) => Footer::Prompt("edit> ".to_owned()),
            Mode::EditSub(_, _) => Footer::Prompt("edit subtask> ".to_owned()),
            Mode::EditNote(_, _) => Footer::Prompt("edit note> ".to_owned()),
            Mode::EditTags(_) => Footer::Prompt("tags> ".to_owned()),
            Mode::AddBoard => Footer::Prompt("new board> ".to_owned()),
            Mode::RenameBoard { .. } => Footer::Prompt("rename> ".to_owned()),
            Mode::Search => Footer::Prompt("/".to_owned()),
            Mode::EditCfg(f) => match &self.status {
                None => {
                    let mut p = f.label().to_owned();
                    p.append("> ");
                    Footer::Prompt(p)
                },
                Some(m) => Footer::Message(m.clone()),
            },
            Mode::Config => self.message_or("↑↓ select · tab scope · enter edit · esc back"),
            Mode::Boards { .. } => self.message_or(
                "enter switch · a add · r rename · x delete · esc close",
            ),
            Mode::ConfirmDeleteBoard { .. } => Footer::Hint("y confirm · n/esc cancel".to_owned()),
            Mode::Help => Footer::Hint("any key to close".to_owned()),
            Mode::Normal => self.message_or(
                "? help · a add · e edit · b boards · space done · tab view · q quit",
            ),
        }
    }
}

/// One line of the config screen.
#[derive(Debug, PartialEq, Eq)]
pub struct ConfigLine {
    /// The setting's name, padded.
    pub label: String,
    pub value: String,
    /// Where the value comes from, if not from the scope shown.
    pub suffix: &'static str,
}

/// What a line of the config screen holds.
pub struct ConfigLineModel {
    pub label: Seq<char>,
    pub value: Seq<char>,
    pub suffix: Seq<char>,
}

impl View for ConfigLine {
    type V = ConfigLineModel;

    open spec fn view(&self) -> ConfigLineModel {
        ConfigLineModel { label: self.label@, value: self.value@, suffix: self.suffix@ }
    }
}

impl AppModel {
    /// A setting's line on the config screen.
    pub open spec fn config_line(self, f: CfgField) -> ConfigLineModel {
        let label = text::left_aligned(f.label_text(), 14);
        match self.cfg_scope {
            Scope::Global => ConfigLineModel {
                label,
                value: settings::shown_value(self.cfg, f),
                suffix: ""@,
            },
            Scope::Board => if f == CfgField::TickFps {
                ConfigLineModel {
                    label,
                    value: settings::shown_value(self.cfg, f),
                    suffix: " (global)"@,
                }
            } else {
                ConfigLineModel {
                    label,
                    value: settings::shown_value(self.cfg.effective(self.board), f),
                    suffix: if settings::is_overridden(
                        settings::overrides_of(self.cfg, self.board),
                        f,
                    ) {
                        " (override)"@
                    } else {
                        ""@
                    },
                }
            },
        }
    }
}

impl AppModel {
    /// The heading of the config screen.
    pub open spec fn scope_heading(self) -> Seq<char> {
        match self.cfg_scope {
            Scope::Global => "scope: global"@,
            Scope::Board => "scope: board "@ + self.board,
        }
    }

    /// A board's line in the board picker: the active one is starred.
    pub open spec fn board_line(self, name: Seq<char>) -> Seq<char> {
        (if name == self.board {
            "* "@
        } else {
            "  "@
        }) + name
    }

    /// The line to highlight in the board picker: the picked one, or the active board
    /// where none is being picked.
    pub open spec fn highlighted_board(self, names: Seq<Seq<char>>) -> Option<usize> {
        if names.len() == 0 {
            None
        } else {
            Some(
                app::clamped(
                    match self.mode {
                        ModeModel::Boards { names: _, sel } => sel,
                        _ => match keys::find_text(names, self.board) {
                            Some(i) => i,
                            None => 0,
                        },
                    },
                    names.len(),
                ),
            )
        }
    }

    /// The question that deleting a board asks, if one is being asked.
    pub open spec fn question_text(self) -> Option<Seq<char>> {
        match self.mode {
            ModeModel::ConfirmDeleteBoard { name } => Some("Delete board '"@ + name + "'?"@),
            _ => None,
        }
    }
}

impl App {
    /// The heading of the config screen.
    pub fn config_heading(&self) -> (r: String)
        ensures
            r@ == self@.scope_heading(),
    {
        match self.cfg_scope {
            Scope::Global => "scope: global".to_owned(),
            Scope::Board => {
                let mut r = "scope: board ".to_owned();
                r.append(self.board.as_str());
                r
            },
        }
    }

    /// A setting's line on the config screen.
    pub fn config_line(&self, f: CfgField) -> (r: ConfigLine)
        ensures
            r@ == self@.config_line(f),
    {
        let label = text::pad_right(f.label(), 14);
        match self.cfg_scope {
            Scope::Global => ConfigLine {
                label,
                value: settings::cfg_value(&self.cfg, f),
                suffix: "",
            },
            Scope::Board => if f == CfgField::TickFps {
                ConfigLine {
                    label,
                    value: settings::cfg_value(&self.cfg, f),
                    suffix: " (global)",
                }
            } else {
                let set = match self.cfg.boards.get(self.board.as_str()) {
                    Some(o) => settings::override_is_set(o, f),
                    None => false,
                };
                ConfigLine {
                    label,
                    value: settings::cfg_value(&self.ecfg(), f),
                    suffix: if set {
                        " (override)"
                    } else {
                        ""
                    },
                }
            },
        }
    }

    /// The lines of the config screen, in the order of the settings.
    pub fn config_lines(&self) -> (r: Vec<ConfigLine>)
        ensures
            r@.len() == CFG_FIELD_COUNT,
            forall|i: int|
                0 <= i < CFG_FIELD_COUNT ==> (#[trigger] r@[i])@ == self@.config_line(
                    CfgField::placed(i),
                ),
    {
        let mut r: Vec<ConfigLine> = Vec::new();
        let mut i: usize = 0;
        while i < CFG_FIELD_COUNT
            invariant
                i <= CFG_FIELD_COUNT,
                r@.len() == i,
                forall|j: int|
                    0 <= j < i ==> (#[trigger] r@[j])@ == self@.config_line(CfgField::placed(j)),
            decreases CFG_FIELD_COUNT - i,
        {
            r.push(self.config_line(CfgField::at(i)));
            i += 1;
        }
        r
    }

    /// The lines of the board picker: the active board is starred.
    pub fn board_lines(&self, names: &Vec<String>) -> (r: Vec<String>)
        ensures
            text::texts(r@) == Seq::new(names@.len(), |i: int| self@.board_line(names@[i]@)),
    {
        let mut r: Vec<String> = Vec::new();
        let mut i: usize = 0;
        while i < names.len()
            invariant
                i <= names@.len(),
                r@.len() == i,
                forall|j: int|
                    0 <= j < i ==> (#[trigger] r@[j])@ == self@.board_line(names@[j]@),
            decreases names@.len() - i,
        {
            let mut line = (if text::same_text(names[i].as_str(), self.board.as_str()) {
                "* "
            } else {
                "  "
            }).to_owned();
            line.append(names[i].as_str());
            r.push(line);
            i += 1;
        }
        assert(text::texts(r@) =~= Seq::new(names@.len(), |i: int| self@.board_line(names@[i]@)));
        r
    }

    /// The line to highlight in the board picker, kept within the names listed:
    /// the picked one, or the active board where none is being picked.
    pub fn board_cursor(&self, names: &Vec<String>) -> (r: Option<usize>)
        ensures
            r == self@.highlighted_board(text::texts(names@)),
    {
        let n: usize = names.len();
        if n == 0 {
            return None;
        }
        let sel: usize = match &self.mode {
            Mode::Boards { names: _, sel } => *sel,
            _ => match keys::position(names, self.board.as_str()) {
                Some(i) => i,
                None => 0,
            },
        };
        if sel < n {
            Some(sel)
        } else {
            Some(n - 1)
        }
    }

    /// The question that deleting a board asks, if one is being asked.
    pub fn question(&self) -> (r: Option<String>)
        ensures
            text::opt_text(r) == self@.question_text(),
    {
        match &self.mode {
            Mode::ConfirmDeleteBoard { name } => {
                let mut q = "Delete board '".to_owned();
                q.append(name.as_str());
                q.append("'?");
                Some(q)
            },
            _ => None,
        }
    }
}

/// A rectangle of terminal cells.
#[derive(Debug, Clone, Copy, PartialEq, Eq, Structural)]
pub struct Area {
    pub x: u16,
    pub y: u16,
    pub width: u16,
    pub height: u16,
}

/// The narrowest that a confirmation popup gets.
pub const POPUP_WIDTH: u16 = 24;

/// Whether `r` is where a popup with a question of `len` characters goes.
pub open spec fn is_popup(len: u16, area: Area, r: Area) -> bool {
    &&& r.width == (if len + 4 < POPUP_WIDTH {
        POPUP_WIDTH as int
    } else if len + 4 > area.width {
        area.width as int
    } else {
        len + 4
    })
    &&& r.height == (if area.height == 0 {
        1int
    } else if area.height < 4 {
        area.height as int
    } else {
        4
    })
    &&& r.x == area.x + (area.width - r.width) / 2
    &&& r.y == area.y + (if area.height < r.height {
        0int
    } else {
        (area.height - r.height) / 2
    })
}

/// Where a popup with a question of `len` characters goes: as wide as the question
/// and its border, within `POPUP_WIDTH` and the area's width, four lines high,
/// centered.
pub fn popup_area(len: u16, area: Area) -> (r: Area)
    requires
        len + 4 <= u16::MAX,
        POPUP_WIDTH <= area.width,
        area.x + area.width <= u16::MAX,
        area.y + area.height <= u16::MAX,
    ensures
        is_popup(len, area, r),
{
    let wanted: u16 = len + 4;
    let width: u16 = if wanted < POPUP_WIDTH {
        POPUP_WIDTH
    } else if wanted > area.width {
        area.width
    } else {
        wanted
    };
    let height: u16 = if area.height == 0 {
        1
    } else if area.height < 4 {
        area.height
    } else {
        4
    };
    let spare: u16 = if area.height < height {
        0
    } else {
        area.height - height
    };
    Area { x: area.x + (area.width - width) / 2, y: area.y + spare / 2, width, height }
}

/// The help: keys and what they do. A line without a key is a heading, one without
/// either is blank.
pub const HELP: [(&'static str, &'static str); 33] = [
    ("", "navigation"),
    ("j/k ↑/↓", "move selection"),
    ("gg / G", "jump to top / bottom"),
    ("/", "search titles & tags (incremental)"),
    ("tab", "cycle active → dormant → done"),
    ("enter/→", "expand subtasks & notes"),
    ("", ""),
    ("", "tasks"),
    ("a", "add task"),
    ("e", "edit title"),
    ("t", "edit tags"),
    ("space/d", "toggle done"),
    ("r", "revive (from dormant/done)"),
    ("x/del", "delete"),
    ("", ""),
    ("", "subtasks & notes"),
    ("s", "add subtask"),
    ("n", "add note"),
    ("space", "toggle subtask done"),
    ("", ""),
    ("", "editing"),
    ("←/→", "move cursor"),
    ("^a/^e", "cursor to start / end"),
    ("home/end", "cursor to start / end"),
    ("^u", "delete to line start"),
    ("del", "delete char at cursor"),
    ("", ""),
    ("", "other"),
    ("y", "yank selected to clipboard"),
    ("b", "boards (switch / add)"),
    ("c", "config (tab: global/board scope)"),
    ("?", "this help"),
    ("q/esc", "quit"),
];

/// How the key of a line of the help is shown: indented and padded, unless there is
/// none.
pub open spec fn help_key(key: Seq<char>) -> Seq<char> {
    if key.len() == 0 {
        Seq::empty()
    } else {
        "  "@ + text::left_aligned(key, 10)
    }
}

/// A line of the help: the key, indented and padded, and what it does.
pub fn help_line(i: usize) -> (r: (String, &'static str))
    requires
        i < HELP@.len(),
    ensures
        r.0@ == help_key(HELP@[i as int].0@),
        r.1@ == HELP@[i as int].1@,
{
    let (key, what) = HELP[i];
    if key.is_empty() {
        (String::new(), what)
    } else {
        let mut r = "  ".to_owned();
        r.append(text::pad_right(key, 10).as_str());
        (r, what)
    }
}

} // verus!
