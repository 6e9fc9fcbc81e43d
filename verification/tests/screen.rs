use zym::app::{App, Mode, Section};
use zym::config::{BoardOverrides, Config, Span};
use zym::encode::base64;
use zym::input::{byte_at, input_window, tail};
use zym::model::{Status, SubTask, Task};
use zym::order::arrange;
use zym::screen::{help_line, popup_area, row_style, Area, Footer, Tone, HELP, POPUP_WIDTH};
use zym::settings::{
    apply_cfg, cfg_field_index, cfg_value, override_is_set, override_raw, parse_theme, CfgField,
    Scope,
};
use zym::text::{
    comes_before, contains_str, join, pad_left, pad_right, parse_number, sort_texts, split_words,
    strip_hashes, to_decimal, trimmed,
};
use zym::theme::{breath, bubble_glyph, known_theme, list_theme_names, Rgb, Theme, THEME_NAMES};

const NOW: u64 = 100_000_000;
const DAY: u64 = 86_400;

fn s(text: &str) -> String {
    text.to_string()
}

fn app(tasks: Vec<Task>) -> App {
    App::new(Config::with_data_dir(None), tasks)
}

#[test]
fn rows_are_written_out() {
    let mut t = Task::new_at(1, s("brew"), NOW);
    t.subtasks.push(SubTask { title: s("boil"), done: true });
    t.subtasks.push(SubTask { title: s("cool"), done: false });
    t.add_note_at("use oats", NOW);
    t.add_tag("beer");
    let mut a = app(vec![t]);
    let lines = a.row_lines_at(NOW);
    assert_eq!(lines.len(), 1);
    assert_eq!(lines[0].text, "· brew ▸ [1/2] ✎1");
    assert_eq!(lines[0].chips, "  #beer");
    assert_eq!((lines[0].tone, lines[0].age, lines[0].struck), (Tone::Hot, 0, false));
    a.toggle_expand_at(NOW);
    let lines = a.row_lines_at(NOW);
    assert_eq!(lines[0].text, "· brew ▾ [1/2] ✎1");
    assert_eq!(lines[1].text, "    ↳ ✓ boil");
    assert_eq!((lines[1].tone, lines[1].struck), (Tone::SubTask, true));
    assert_eq!(lines[2].text, "    ↳ · cool");
    assert_eq!(lines[3].text, "    ✎ use oats");
    assert_eq!((lines[3].tone, lines[3].chips.as_str()), (Tone::Note, ""));
}

#[test]
fn rows_show_their_status() {
    let mut done = Task::new_at(4, s("d"), NOW);
    done.done = true;
    let tasks = vec![
        Task::new_at(1, s("a"), NOW - 5 * DAY),
        Task::new_at(2, s("b"), NOW - 60 * DAY),
        Task::new_at(3, s("c"), NOW - 20 * DAY),
        done,
    ];
    let mut a = app(tasks);
    a.frame = 2;
    let lines = a.row_lines_at(NOW);
    assert_eq!((lines[0].text.as_str(), lines[0].tone), ("∘ b", Tone::Bubbling));
    assert_eq!((lines[1].text.as_str(), lines[1].tone), ("· a", Tone::Decaying));
    assert_eq!(lines[1].age, 5 * DAY);
    assert_eq!(a.list_title_at(NOW), " active (2) ");
    a.view = Section::Dormant;
    assert_eq!(a.row_lines_at(NOW)[0].tone, Tone::Dormant);
    assert_eq!(a.list_title_at(NOW), " dormant (1) ");
    a.view = Section::Done;
    let lines = a.row_lines_at(NOW);
    assert_eq!((lines[0].text.as_str(), lines[0].struck), ("✓ d", true));
    assert_eq!(a.list_title_at(NOW), " done (1) ");
    assert_eq!(row_style(Status::Bubbling, 4), ("○", Tone::Bubbling));
}

#[test]
fn the_cursor_stays_on_a_row() {
    let mut a = app(vec![]);
    assert_eq!(a.list_cursor(0), None);
    a.selected = 7;
    assert_eq!(a.list_cursor(3), Some(2));
    assert_eq!(a.list_cursor(8), Some(7));
    assert_eq!(a.subtitle(), "« zymosis — default »");
}

#[test]
fn the_footer_prompts_or_tells() {
    let mut a = app(vec![]);
    let prompts = vec![
        (Mode::Add, "add> "),
        (Mode::AddSub(1), "subtask> "),
        (Mode::AddNote(1), "note> "),
        (Mode::Edit(1), "edit> "),
        (Mode::EditSub(1, 0), "edit subtask> "),
        (Mode::EditNote(1, 0), "edit note> "),
        (Mode::EditTags(1), "tags> "),
        (Mode::AddBoard, "new board> "),
        (Mode::RenameBoard { old_name: s("x") }, "rename> "),
        (Mode::Search, "/"),
        (Mode::EditCfg(CfgField::TickFps), "tick_fps> "),
    ];
    for (mode, prompt) in prompts {
        a.mode = mode;
        assert_eq!(a.footer(), Footer::Prompt(s(prompt)));
    }
    a.mode = Mode::Normal;
    assert_eq!(
        a.footer(),
        Footer::Hint(s("? help · a add · e edit · b boards · space done · tab view · q quit"))
    );
    a.mode = Mode::Help;
    assert_eq!(a.footer(), Footer::Hint(s("any key to close")));
    a.mode = Mode::Config;
    assert_eq!(a.footer(), Footer::Hint(s("↑↓ select · tab scope · enter edit · esc back")));
    a.mode = Mode::Boards { names: vec![s("x")], sel: 0 };
    assert_eq!(
        a.footer(),
        Footer::Hint(s("enter switch · a add · r rename · x delete · esc close"))
    );
    a.mode = Mode::ConfirmDeleteBoard { name: s("x") };
    assert_eq!(a.footer(), Footer::Hint(s("y confirm · n/esc cancel")));
    assert_eq!(a.question(), Some(s("Delete board 'x'?")));
    a.status = Some(s("oops"));
    a.mode = Mode::EditCfg(CfgField::Theme);
    assert_eq!(a.footer(), Footer::Message(s("oops")));
    a.mode = Mode::Normal;
    assert_eq!(a.footer(), Footer::Message(s("oops")));
    assert_eq!(a.question(), None);
    a.mode = Mode::Add;
    assert_eq!(a.footer(), Footer::Prompt(s("add> ")));
}

#[test]
fn config_lines_say_where_values_come_from() {
    let mut a = app(vec![]);
    a.cfg.boards.insert(
        s("default"),
        BoardOverrides { hot_window: Some(Span(3600)), ..Default::default() },
    );
    assert_eq!(a.config_heading(), "scope: global");
    let lines = a.config_lines();
    assert_eq!(lines.len(), 5);
    assert_eq!(
        (lines[0].label.as_str(), lines[0].value.as_str(), lines[0].suffix),
        ("hot_window    ", "2d", "")
    );
    a.cfg_scope = Scope::Board;
    assert_eq!(a.config_heading(), "scope: board default");
    let lines = a.config_lines();
    assert_eq!((lines[0].value.as_str(), lines[0].suffix), ("1h", " (override)"));
    assert_eq!((lines[1].value.as_str(), lines[1].suffix), ("2w", ""));
    assert_eq!((lines[3].value.as_str(), lines[3].suffix), ("12", " (global)"));
    assert_eq!(lines[4].label, "theme         ");
}

#[test]
fn board_lines_star_the_active_board() {
    let mut a = app(vec![]);
    let names = vec![s("a"), s("default"), s("z")];
    assert_eq!(a.board_lines(&names), vec!["  a", "* default", "  z"]);
    assert_eq!(a.board_cursor(&names), Some(1));
    a.mode = Mode::Boards { names: names.clone(), sel: 2 };
    assert_eq!(a.board_cursor(&names), Some(2));
    assert_eq!(a.board_cursor(&vec![s("a")]), Some(0));
    assert_eq!(a.board_cursor(&vec![]), None);
}

#[test]
fn popups_are_centered_and_fit() {
    let area = Area { x: 2, y: 3, width: 80, height: 20 };
    assert_eq!(popup_area(30, area), Area { x: 25, y: 11, width: 34, height: 4 });
    assert_eq!(popup_area(5, area).width, POPUP_WIDTH);
    assert_eq!(popup_area(200, area), Area { x: 2, y: 11, width: 80, height: 4 });
    let flat = Area { x: 0, y: 0, width: 24, height: 2 };
    assert_eq!(popup_area(5, flat), Area { x: 0, y: 0, width: 24, height: 2 });
    let none = Area { x: 0, y: 0, width: 24, height: 0 };
    assert_eq!(popup_area(5, none).height, 1);
}

#[test]
fn help_lines_are_aligned() {
    assert_eq!(help_line(0), (s(""), "navigation"));
    assert_eq!(help_line(1), (s("  j/k ↑/↓   "), "move selection"));
    assert_eq!(help_line(6), (s(""), ""));
    assert_eq!(help_line(HELP.len() - 1), (s("  q/esc     "), "quit"));
}

#[test]
fn settings_have_values_and_places() {
    let cfg = Config::with_data_dir(None);
    assert_eq!(cfg_value(&cfg, CfgField::BubbleAfter), "30d");
    assert_eq!(cfg_value(&cfg, CfgField::TickFps), "12");
    assert_eq!(cfg_value(&cfg, CfgField::Theme), "neon_purple");
    assert_eq!(cfg_field_index(CfgField::Theme), 4);
    assert_eq!(CfgField::at(1).label(), "dormant_after");
    let o = BoardOverrides { bubble_after: Some(Span(120)), ..Default::default() };
    assert!(override_is_set(&o, CfgField::BubbleAfter));
    assert!(!override_is_set(&o, CfgField::Theme) && !override_is_set(&o, CfgField::TickFps));
    assert_eq!(override_raw(&o, CfgField::BubbleAfter), "2m");
    assert_eq!(override_raw(&o, CfgField::HotWindow), "");
    assert_eq!(override_raw(&o, CfgField::TickFps), "");
}

#[test]
fn settings_say_what_is_wrong() {
    let cfg = Config::with_data_dir(None);
    let global = |f: CfgField, input: &str| apply_cfg(&cfg, "b", Scope::Global, f, input);
    assert_eq!(global(CfgField::TickFps, " x "), Err(s("bad number 'x'")));
    assert_eq!(global(CfgField::TickFps, "4294967296"), Err(s("bad number '4294967296'")));
    assert_eq!(global(CfgField::TickFps, "+7").unwrap().tick_fps, 7);
    assert_eq!(global(CfgField::TickFps, "0"), Err(s("tick_fps must be >= 1")));
    assert_eq!(
        parse_theme(" nope "),
        Err(s(
            "unknown theme 'nope' (try: neon_purple, neon_teal, catppuccin_mocha, catppuccin_macchiato, catppuccin_frappe, catppuccin_latte)"
        ))
    );
    assert_eq!(parse_theme(" neon_teal "), Ok(s("neon_teal")));
    assert_eq!(
        apply_cfg(&cfg, "b", Scope::Board, CfgField::TickFps, ""),
        Err(s("tick_fps is global-only"))
    );
    // Resubmitting the value that is shown changes nothing.
    for f in [CfgField::HotWindow, CfgField::DormantAfter, CfgField::TickFps, CfgField::Theme] {
        assert_eq!(global(f, &cfg_value(&cfg, f)).as_ref(), Ok(&cfg));
    }
    // Clearing undoes setting; other boards are left alone.
    let set = apply_cfg(&cfg, "b", Scope::Board, CfgField::Theme, "neon_teal").unwrap();
    let both = apply_cfg(&set, "c", Scope::Board, CfgField::HotWindow, "1h").unwrap();
    assert_eq!(both.boards.get("b"), set.boards.get("b"));
    assert_eq!(apply_cfg(&set, "b", Scope::Board, CfgField::Theme, "  "), Ok(cfg));
}

#[test]
fn themes_are_known_by_name() {
    assert_eq!(list_theme_names().len(), THEME_NAMES.len());
    for name in THEME_NAMES {
        assert!(known_theme(name));
    }
    assert!(!known_theme("NEON_TEAL"));
    assert_eq!(Theme::named("neon_purple").hot, Rgb(255, 45, 149));
    assert_eq!(Theme::named("catppuccin_mocha").accent, Rgb(203, 166, 247));
}

#[test]
fn breathing_rises_and_falls() {
    assert_eq!(breath(0), 0);
    assert_eq!(breath(12), 12);
    assert_eq!(breath(13), 11);
    assert_eq!(breath(24), 0);
    assert_eq!(bubble_glyph(2), "∘");
    assert_eq!(bubble_glyph(7), "°");
}

#[test]
fn windows_of_any_width_hold_the_cursor() {
    assert_eq!(input_window("e> ", "abc", 99, 10), (s("e> abc"), 6));
    assert_eq!(input_window("e> ", "abc", 3, 0), (s(""), 0));
    assert_eq!(input_window("e> ", "abc", 1, 2), (s("ab"), 1));
    assert_eq!(byte_at("aé", 9), 3);
    assert_eq!(tail("abc", 0), "");
}

#[test]
fn base64_covers_every_byte() {
    assert_eq!(base64(&[0xff, 0xfe, 0xfd]), "//79");
    assert_eq!(base64(&[0]), "AA==");
    assert_eq!(base64(&[0xfb, 0xef]), "++8=");
}

#[test]
fn arranging_is_stable() {
    let keys = vec![(1, 5), (0, 9), (1, 5), (0, 2), (0, 9)];
    let keep = vec![true, true, true, false, true];
    assert_eq!(arrange(&keys, &keep), vec![1, 4, 0, 2]);
}

#[test]
fn texts_are_cut_and_put_together() {
    assert_eq!(trimmed("\u{a0} x y \n"), "x y");
    assert_eq!(split_words("  a  b\tc "), vec!["a", "b", "c"]);
    assert_eq!(strip_hashes("##a#b"), "a#b");
    assert_eq!(join(&vec![s("a"), s("b")], ", "), "a, b");
    assert_eq!(join(&vec![], ", "), "");
    assert_eq!(pad_left("é", 3), "  é");
    assert_eq!(pad_right("abcd", 3), "abcd");
    assert_eq!(to_decimal(0), "0");
    assert_eq!(to_decimal(u64::MAX), "18446744073709551615");
    assert_eq!(parse_number("007", 10), Some(7));
    assert_eq!(parse_number("11", 10), None);
    assert_eq!(parse_number("", 10), None);
    assert!(contains_str("banana", "nan") && contains_str("x", "") && !contains_str("a", "ab"));
    assert!(comes_before("a", "ab") && comes_before("Z", "a") && !comes_before("a", "a"));
    assert_eq!(sort_texts(vec![s("b"), s("a"), s("b"), s("B")]), vec!["B", "a", "b", "b"]);
}
