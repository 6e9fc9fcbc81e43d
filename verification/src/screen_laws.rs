//! What is shown, and how, whatever it is given.

use crate::app::{AppModel, ModeModel, Row, Section};
use crate::encode;
use crate::key_laws;
use crate::model::{Status, SubTaskModel};
use crate::screen;
use crate::screen::{Area, FooterModel, Tone};
use crate::settings;
use crate::settings::{CfgField, Scope};
use crate::task_laws;
use crate::text;
use crate::theme;
use crate::theme::{Rgb, Theme};
use vstd::prelude::*;
use vstd::string::*;
use vstd::utf8;

verus! {

/// A task's row is its mark, its title and what can be expanded: a check mark if it is
/// done, a moving bubble if it is bubbling, a dot otherwise. It is colored by its status
/// and age, and crossed out if it is done.
pub proof fn task_rows_show_the_task(s: AppModel, ti: usize, now: u64)
    ensures
        ({
            let t = s.tasks[ti as int];
            let st = t.status(s.thresholds(), now);
            let line = s.row_line(Row::Task(ti), now);
            let open = s.expanded.contains(t.id);
            let parts = t.subtasks.len() > 0 || t.notes.len() > 0;
            &&& line.text == (if t.done {
                "✓"@
            } else if st == Status::Bubbling {
                theme::bubble_of(s.frame)
            } else {
                "·"@
            }) + " "@ + t.title + (if parts {
                " "@ + (if open {
                    "▾"@
                } else {
                    "▸"@
                }) + (if t.subtasks.len() > 0 {
                    " ["@ + text::decimal(t.subtasks.filter(|x: SubTaskModel| x.done).len()) + "/"@
                        + text::decimal(t.subtasks.len()) + "]"@
                } else {
                    Seq::empty()
                }) + (if t.notes.len() > 0 {
                    " ✎"@ + text::decimal(t.notes.len())
                } else {
                    Seq::empty()
                })
            } else {
                Seq::empty()
            })
            &&& line.tone == (match st {
                Status::Hot => Tone::Hot,
                Status::Decaying => Tone::Decaying,
                Status::Dormant => Tone::Dormant,
                Status::Bubbling => Tone::Bubbling,
            })
            &&& line.age == (if now < t.last_updated {
                0
            } else {
                now - t.last_updated
            })
            &&& line.struck == t.done
            &&& t.tags.len() == 0 ==> line.chips.len() == 0
            &&& line.chips == crate::cli::tag_suffix_of(t.tags)
        }),
{
    task_laws::progress_counts_what_is_done(s.tasks[ti as int].subtasks);
}

/// A subtask's row is indented below its task, with a check mark and crossed out if it is
/// done; a note's row is indented behind a pencil.
pub proof fn part_rows_show_the_part(s: AppModel, ti: usize, k: usize, now: u64)
    ensures
        ({
            let sub = s.tasks[ti as int].subtasks[k as int];
            let note = s.tasks[ti as int].notes[k as int];
            let a = s.row_line(Row::Sub(ti, k), now);
            let b = s.row_line(Row::Note(ti, k), now);
            &&& a.text == "    ↳ "@ + (if sub.done {
                "✓"@
            } else {
                "·"@
            }) + " "@ + sub.title
            &&& a.tone == Tone::SubTask && a.struck == sub.done && a.chips.len() == 0
            &&& b.text == "    ✎ "@ + note.text
            &&& b.tone == Tone::Note && !b.struck && b.chips.len() == 0
        }),
{
}

/// The list shows one line for each row, in their order, under the section's name and
/// the number of its tasks.
pub proof fn lists_show_every_row(s: AppModel, now: u64, q: int)
    requires
        0 <= q < s.rows(now).len(),
    ensures
        s.row_lines(now).len() == s.rows(now).len(),
        s.row_lines(now)[q] == s.row_line(s.rows(now)[q], now),
        s.list_title(now) == (match s.view {
            Section::Active => " active ("@,
            Section::Dormant => " dormant ("@,
            Section::Done => " done ("@,
        }) + text::decimal(s.visible(now).len()) + ") "@,
{
}

/// The last line prompts for what the input line is for. Elsewhere it shows the last
/// message, if there is one, and what the keys do otherwise.
pub proof fn the_last_line_prompts(s: AppModel, id: u64, k: usize, f: CfgField, name: Seq<char>)
    ensures
        ({
            let shown = s.footer();
            let m = s.mode;
            &&& m == ModeModel::Add ==> shown == FooterModel::Prompt("add> "@)
            &&& m == ModeModel::AddSub(id) ==> shown == FooterModel::Prompt("subtask> "@)
            &&& m == ModeModel::AddNote(id) ==> shown == FooterModel::Prompt("note> "@)
            &&& m == ModeModel::Edit(id) ==> shown == FooterModel::Prompt("edit> "@)
            &&& m == ModeModel::EditSub(id, k) ==> shown == FooterModel::Prompt("edit subtask> "@)
            &&& m == ModeModel::EditNote(id, k) ==> shown == FooterModel::Prompt("edit note> "@)
            &&& m == ModeModel::EditTags(id) ==> shown == FooterModel::Prompt("tags> "@)
            &&& m == ModeModel::AddBoard ==> shown == FooterModel::Prompt("new board> "@)
            &&& m == (ModeModel::RenameBoard { old_name: name }) ==> shown == FooterModel::Prompt(
                "rename> "@,
            )
            &&& m == ModeModel::Search ==> shown == FooterModel::Prompt("/"@)
            &&& m == ModeModel::EditCfg(f) && s.status is None ==> shown == FooterModel::Prompt(
                (match f {
                    CfgField::HotWindow => "hot_window"@,
                    CfgField::DormantAfter => "dormant_after"@,
                    CfgField::BubbleAfter => "bubble_after"@,
                    CfgField::TickFps => "tick_fps"@,
                    CfgField::Theme => "theme"@,
                }) + "> "@,
            )
            &&& (m is EditCfg || m is Config || m is Boards || m is Normal) && s.status is Some
                ==> shown == FooterModel::Message(s.status->0)
            &&& m is Config && s.status is None ==> shown == FooterModel::Hint(
                "↑↓ select · tab scope · enter edit · esc back"@,
            )
            &&& m is Boards && s.status is None ==> shown == FooterModel::Hint(
                "enter switch · a add · r rename · x delete · esc close"@,
            )
            &&& m is Normal && s.status is None ==> shown == FooterModel::Hint(
                "? help · a add · e edit · b boards · space done · tab view · q quit"@,
            )
            &&& m is ConfirmDeleteBoard ==> shown == FooterModel::Hint("y confirm · n/esc cancel"@)
            &&& m is Help ==> shown == FooterModel::Hint("any key to close"@)
        }),
{
}

/// A setting is shown with its name and its value: the global one, or, in a board's
/// scope, the one that the board sees, and whether the board overrides it. Frames per
/// second are global in either scope.
pub proof fn settings_are_shown_in_their_scope(s: AppModel, f: CfgField)
    ensures
        ({
            let line = s.config_line(f);
            let name = match f {
                CfgField::HotWindow => "hot_window"@,
                CfgField::DormantAfter => "dormant_after"@,
                CfgField::BubbleAfter => "bubble_after"@,
                CfgField::TickFps => "tick_fps"@,
                CfgField::Theme => "theme"@,
            };
            let o = s.cfg.boards[s.board];
            let set = s.cfg.boards.contains_key(s.board) && (match f {
                CfgField::HotWindow => o.hot_window is Some,
                CfgField::DormantAfter => o.dormant_after is Some,
                CfgField::BubbleAfter => o.bubble_after is Some,
                CfgField::TickFps => false,
                CfgField::Theme => o.theme is Some,
            });
            let global = s.cfg_scope == Scope::Global;
            &&& line.label == text::left_aligned(name, 14)
            &&& line.value == settings::shown_value(
                if global {
                    s.cfg
                } else {
                    s.cfg.effective(s.board)
                },
                f,
            )
            &&& line.suffix == (if global {
                ""@
            } else if f == CfgField::TickFps {
                " (global)"@
            } else if set {
                " (override)"@
            } else {
                ""@
            })
        }),
{
}

/// Each theme has its own colors, and a name that is none of theirs means the first.
pub proof fn themes_have_their_colors(name: Seq<char>)
    ensures
        theme::theme_named("neon_purple"@) == (Theme {
            accent: Rgb(187, 92, 255),
            hot: Rgb(255, 45, 149),
            bubble: Rgb(150, 120, 255),
            decay_fresh: Rgb(200, 170, 235),
            decay_stale: Rgb(110, 95, 135),
            dormant: Rgb(90, 80, 110),
            subtask: Rgb(160, 150, 190),
            note: Rgb(150, 190, 150),
            tag: Rgb(200, 140, 255),
            banner_top: Rgb(255, 60, 200),
            banner_bottom: Rgb(120, 90, 255),
        }),
        theme::theme_named("neon_teal"@) == (Theme {
            accent: Rgb(0, 255, 213),
            hot: Rgb(255, 60, 172),
            bubble: Rgb(90, 230, 255),
            decay_fresh: Rgb(150, 200, 210),
            decay_stale: Rgb(95, 95, 120),
            dormant: Rgb(80, 80, 105),
            subtask: Rgb(140, 150, 170),
            note: Rgb(150, 170, 140),
            tag: Rgb(180, 140, 255),
            banner_top: Rgb(0, 255, 213),
            banner_bottom: Rgb(90, 230, 255),
        }),
        theme::theme_named("catppuccin_mocha"@) == (Theme {
            accent: Rgb(203, 166, 247),
            hot: Rgb(243, 139, 168),
            bubble: Rgb(137, 180, 250),
            decay_fresh: Rgb(205, 214, 244),
            decay_stale: Rgb(108, 112, 134),
            dormant: Rgb(88, 91, 112),
            subtask: Rgb(166, 173, 200),
            note: Rgb(166, 227, 161),
            tag: Rgb(180, 190, 254),
            banner_top: Rgb(245, 194, 231),
            banner_bottom: Rgb(203, 166, 247),
        }),
        theme::theme_named("catppuccin_macchiato"@) == (Theme {
            accent: Rgb(198, 160, 246),
            hot: Rgb(237, 135, 150),
            bubble: Rgb(138, 173, 244),
            decay_fresh: Rgb(202, 211, 245),
            decay_stale: Rgb(110, 115, 141),
            dormant: Rgb(91, 96, 120),
            subtask: Rgb(165, 173, 203),
            note: Rgb(166, 218, 149),
            tag: Rgb(183, 189, 248),
            banner_top: Rgb(245, 189, 230),
            banner_bottom: Rgb(198, 160, 246),
        }),
        theme::theme_named("catppuccin_frappe"@) == (Theme {
            accent: Rgb(202, 158, 230),
            hot: Rgb(231, 130, 132),
            bubble: Rgb(140, 170, 238),
            decay_fresh: Rgb(198, 208, 245),
            decay_stale: Rgb(115, 121, 148),
            dormant: Rgb(98, 104, 128),
            subtask: Rgb(165, 173, 206),
            note: Rgb(166, 209, 137),
            tag: Rgb(186, 187, 241),
            banner_top: Rgb(244, 184, 228),
            banner_bottom: Rgb(202, 158, 230),
        }),
        theme::theme_named("catppuccin_latte"@) == (Theme {
            accent: Rgb(136, 57, 239),
            hot: Rgb(210, 15, 57),
            bubble: Rgb(30, 102, 245),
            decay_fresh: Rgb(76, 79, 105),
            decay_stale: Rgb(156, 160, 176),
            dormant: Rgb(188, 192, 204),
            subtask: Rgb(92, 95, 119),
            note: Rgb(64, 160, 43),
            tag: Rgb(114, 135, 253),
            banner_top: Rgb(234, 118, 203),
            banner_bottom: Rgb(136, 57, 239),
        }),
        name != "neon_teal"@ && name != "catppuccin_mocha"@ && name != "catppuccin_macchiato"@ && name
            != "catppuccin_frappe"@ && name != "catppuccin_latte"@ ==> theme::theme_named(name)
            == theme::theme_named("neon_purple"@),
{
    reveal_strlit("neon_purple");
    reveal_strlit("neon_teal");
    reveal_strlit("catppuccin_mocha");
    reveal_strlit("catppuccin_macchiato");
    reveal_strlit("catppuccin_frappe");
    reveal_strlit("catppuccin_latte");
    assert("neon_purple"@.len() == 11 && "neon_teal"@.len() == 9 && "catppuccin_mocha"@.len() == 16
        && "catppuccin_macchiato"@.len() == 20 && "catppuccin_frappe"@.len() == 17);
    assert("catppuccin_latte"@.len() == 16);
    assert("catppuccin_latte"@[11] == 'l' && "catppuccin_mocha"@[11] == 'm');
}

/// The bubble grows, bursts and starts again, each of its four shapes lasting two frames.
pub proof fn bubbles_grow_and_burst(frame: u64)
    ensures
        frame % 8 < 2 ==> theme::bubble_of(frame) == "·"@,
        2 <= frame % 8 < 4 ==> theme::bubble_of(frame) == "∘"@,
        4 <= frame % 8 < 6 ==> theme::bubble_of(frame) == "○"@,
        6 <= frame % 8 ==> theme::bubble_of(frame) == "°"@,
{
}

/// A breath rises for twelve frames and falls for twelve.
pub proof fn breaths_rise_and_fall(frame: u64)
    ensures
        frame % 24 <= 12 ==> theme::breath_of(frame) == frame % 24,
        frame % 24 >= 12 ==> theme::breath_of(frame) == 24 - frame % 24,
{
}

/// The alphabet of Base64.
proof fn alphabet_of_sextets(v: int)
    requires
        0 <= v < 64,
    ensures
        encode::sextet_char(v)
            == "ABCDEFGHIJKLMNOPQRSTUVWXYZabcdefghijklmnopqrstuvwxyz0123456789+/"@[v],
{
    reveal_strlit("ABCDEFGHIJKLMNOPQRSTUVWXYZabcdefghijklmnopqrstuvwxyz0123456789+/");
}

/// Base64 turns three bytes into four letters of its alphabet, six bits each, one after
/// another, and fills up what is short of three with equals signs.
pub proof fn base64_is_six_bits_a_letter(a: u8, b: u8, c: u8, rest: Seq<u8>)
    ensures
        ({
            let letters = "ABCDEFGHIJKLMNOPQRSTUVWXYZabcdefghijklmnopqrstuvwxyz0123456789+/"@;
            &&& encode::base64_of(Seq::empty()) == Seq::<char>::empty()
            &&& encode::base64_of(seq![a]) == seq![
                letters[a as int / 4],
                letters[a as int % 4 * 16],
                '=',
                '=',
            ]
            &&& encode::base64_of(seq![a, b]) == seq![
                letters[a as int / 4],
                letters[a as int % 4 * 16 + b as int / 16],
                letters[b as int % 16 * 4],
                '=',
            ]
            &&& encode::base64_of(seq![a, b, c] + rest) == seq![
                letters[a as int / 4],
                letters[a as int % 4 * 16 + b as int / 16],
                letters[b as int % 16 * 4 + c as int / 64],
                letters[c as int % 64],
            ] + encode::base64_of(rest)
        }),
{
    let letters = "ABCDEFGHIJKLMNOPQRSTUVWXYZabcdefghijklmnopqrstuvwxyz0123456789+/"@;
    sextets_of(a as int, 0, 0);
    sextets_of(a as int, b as int, 0);
    sextets_of(a as int, b as int, c as int);
    let one = seq![a];
    let two = seq![a, b];
    let all = seq![a, b, c] + rest;
    assert(encode::first_group(one) == a * 65536);
    assert(encode::first_group(two) == a * 65536 + b * 256);
    assert(encode::first_group(all) == a * 65536 + b * 256 + c);
    alphabet_of_sextets(a as int / 4);
    alphabet_of_sextets(a as int % 4 * 16);
    alphabet_of_sextets(a as int % 4 * 16 + b as int / 16);
    alphabet_of_sextets(b as int % 16 * 4);
    alphabet_of_sextets(b as int % 16 * 4 + c as int / 64);
    alphabet_of_sextets(c as int % 64);
    assert(all.skip(3) =~= rest);
    if rest.len() == 0 {
        assert(encode::base64_of(rest) =~= Seq::<char>::empty());
        assert(encode::first_quad(all) + Seq::<char>::empty() =~= encode::first_quad(all));
    }
}

/// The four six-bit parts of three bytes.
proof fn sextets_of(a: int, b: int, c: int)
    requires
        0 <= a < 256,
        0 <= b < 256,
        0 <= c < 256,
    ensures
        ({
            let n = a * 65536 + b * 256 + c;
            &&& n / 262144 == a / 4
            &&& n / 4096 % 64 == a % 4 * 16 + b / 16
            &&& n / 64 % 64 == b % 16 * 4 + c / 64
            &&& n % 64 == c % 64
        }),
{
    let n = a * 65536 + b * 256 + c;
    assert(n / 4096 == a * 16 + b / 16);
    assert(n / 64 == a * 1024 + b * 4 + c / 64);
}

/// What is handed to the terminal is its request to set the clipboard, with the bytes of
/// the text in Base64 in it.
pub proof fn clipboard_requests_hold_the_text(line: Seq<char>)
    ensures
        encode::clipboard_of(line) == "\x1b]52;c;"@ + encode::base64_of(utf8::encode_utf8(line))
            + "\x07"@,
{
}

/// The highlight is on the selected row, or on the last one if it is past that, and the
/// line below the banner names the board.
pub proof fn highlights_are_on_a_row(s: AppModel, rows: nat)
    ensures
        rows == 0 ==> s.highlighted(rows) is None,
        s.selected < rows ==> s.highlighted(rows) == Some(s.selected),
        0 < rows <= s.selected ==> s.highlighted(rows) == Some((rows - 1) as usize),
        s.subtitle_text() == "« zymosis — "@ + s.board + " »"@,
{
}

/// The picker stars the active board and no other, and highlights the picked one, or the
/// last one if that is past it; deleting one asks about that one.
pub proof fn pickers_star_the_active_board(
    s: AppModel,
    name: Seq<char>,
    names: Seq<Seq<char>>,
    listed: Seq<Seq<char>>,
    sel: usize,
)
    ensures
        name == s.board ==> s.board_line(name) == "* "@ + name,
        name != s.board ==> s.board_line(name) == "  "@ + name,
        listed.len() == 0 ==> s.highlighted_board(listed) is None,
        s.mode == (ModeModel::Boards { names, sel }) && sel < listed.len() ==> s.highlighted_board(
            listed,
        ) == Some(sel),
        s.mode == (ModeModel::Boards { names, sel }) && 0 < listed.len() <= sel
            ==> s.highlighted_board(listed) == Some((listed.len() - 1) as usize),
        s.mode == (ModeModel::ConfirmDeleteBoard { name }) ==> s.question_text() == Some(
            "Delete board '"@ + name + "'?"@,
        ),
        !(s.mode is ConfirmDeleteBoard) ==> s.question_text() is None,
        s.cfg_scope == Scope::Global ==> s.scope_heading() == "scope: global"@,
        s.cfg_scope == Scope::Board ==> s.scope_heading() == "scope: board "@ + s.board,
{
}

/// Where no board is being picked, the active one is highlighted, at its first place.
pub proof fn pickers_highlight_the_active_board(s: AppModel, listed: Seq<Seq<char>>, i: usize)
    requires
        !(s.mode is Boards),
        i < listed.len() <= usize::MAX,
        listed[i as int] == s.board,
        forall|j: int| 0 <= j < i ==> #[trigger] listed[j] != s.board,
    ensures
        s.highlighted_board(listed) == Some(i),
{
    key_laws::first_text_is_found(listed, s.board);
}

/// A popup is centered in the area, up to one cell, four lines high where there is room,
/// and as wide as its question and four more, at least twenty-four and at most the area.
pub proof fn popups_are_centered(len: u16, area: Area, r: Area)
    requires
        screen::is_popup(len, area, r),
        24 <= area.width,
    ensures
        area.x <= r.x,
        0 <= (area.width - r.width) - 2 * (r.x - area.x) <= 1,
        24 <= r.width <= area.width,
        24 <= len + 4 <= area.width ==> r.width == len + 4,
        len + 4 < 24 ==> r.width == 24,
        area.height >= 4 ==> r.height == 4,
        0 < area.height < 4 ==> r.height == area.height,
        area.height > 0 ==> 0 <= (area.height - r.height) - 2 * (r.y - area.y) <= 1,
{
}

/// A key of the help is indented by two and padded to ten.
pub proof fn help_keys_are_indented(key: Seq<char>)
    ensures
        key.len() == 0 ==> screen::help_key(key).len() == 0,
        key.len() > 0 ==> screen::help_key(key) == "  "@ + text::left_aligned(key, 10),
        0 < key.len() <= 10 ==> screen::help_key(key).len() == 12,
{
    reveal_strlit("  ");
}

} // verus!
