use zym::app::{sort_rank, App, Mode, Row, Section};
use zym::config::{Config, Span};
use zym::encode::{base64, clipboard_escape};
use zym::input::{byte_at, input_window, tail};
use zym::keys::{board_deletable, move_selection, Effect, KeyCode};
use zym::model::{now, Status, SubTask, Task};
use zym::settings::{apply_cfg, CfgField, Scope};
use zym::theme::{bubble_glyph, Theme, BUBBLES};

fn task(id: u64, title: &str) -> Task {
    Task::new(id, title.to_string())
}

fn sub(title: &str) -> SubTask {
    SubTask { title: title.to_string(), done: false }
}

fn app_with(n: usize) -> App {
    let tasks = (0..n).map(|i| task(i as u64 + 1, &format!("t{i}"))).collect();
    App::new(Config::default(), tasks)
}

#[test]
fn base64_matches_known_vectors() {
    // RFC 4648 test vectors, incl. the three padding cases.
    assert_eq!(base64(b""), "");
    assert_eq!(base64(b"f"), "Zg==");
    assert_eq!(base64(b"fo"), "Zm8=");
    assert_eq!(base64(b"foo"), "Zm9v");
    assert_eq!(base64(b"foobar"), "Zm9vYmFy");
}

#[test]
fn tail_keeps_trailing_chars() {
    assert_eq!(tail("short", 10), "short");
    assert_eq!(tail("abcdef", 3), "def");
    // char-aware, not byte-aware
    assert_eq!(tail("aééé", 2), "éé");
}

#[test]
fn input_window_scrolls_to_keep_cursor_visible() {
    // Fits: whole line shown, cursor where it sits.
    assert_eq!(input_window("add> ", "hi", 2, 20), ("add> hi".into(), 7));
    // Cursor at the start of a long input: window anchored at the start.
    let (vis, col) = input_window("e> ", "0123456789", 0, 6);
    assert_eq!((vis.as_str(), col), ("e> 012", 3));
    // Cursor at the end: window scrolls right, cursor on the last column.
    let (vis, col) = input_window("e> ", "0123456789", 10, 6);
    // Cursor sits one past the last char, so width-1 chars are shown.
    assert_eq!(col, 5);
    assert!(vis.ends_with('9') && vis.chars().count() == 5);
    // byte_at is char-aware.
    assert_eq!(byte_at("aé", 1), 1);
    assert_eq!(byte_at("aé", 2), 3);
}

// Stagger last_updated so ties don't leave the sort order ambiguous.
fn stagger(app: &mut App) {
    let now = now();
    let n = app.tasks.len() as u64;
    for (i, t) in app.tasks.iter_mut().enumerate() {
        t.last_updated = now - (n - i as u64); // t0 oldest → bottom
    }
}

#[test]
fn selection_follows_task_it_acted_on() {
    let mut app = app_with(3);
    stagger(&mut app); // t2 newest at top, t0 oldest at bottom
    let id = app.tasks[0].id; // the bottom task

    // Editing touches it → floats to the top; selection must follow.
    app.apply_edit(id, "edited".into());
    assert_eq!(app.selected, 0);
    assert_eq!(app.selected_task().map(|ti| app.tasks[ti].id), Some(id));

    // Same for adding a subtask to a task that isn't currently selected.
    app.selected = app.rows().len() - 1; // move away, to the bottom
    let other = app.tasks.iter().find(|t| t.id != id).unwrap().id;
    app.add_subtask(other, "sub".into());
    assert_eq!(app.selected_task().map(|ti| app.tasks[ti].id), Some(other));
}

#[test]
fn find_match_hits_title_and_tags_case_insensitively() {
    let mut app = app_with(0);
    app.tasks.push(task(1, "Buy Milk"));
    app.tasks.push(task(2, "walk dog"));
    let mut tagged = task(3, "call mom");
    tagged.add_tag("Urgent");
    app.tasks.push(tagged);
    stagger(&mut app);

    let i = app.find_match("DOG").expect("title match");
    assert!(matches!(app.rows()[i], Row::Task(ti) if app.tasks[ti].id == 2));
    let i = app.find_match("urgent").expect("tag match");
    assert!(matches!(app.rows()[i], Row::Task(ti) if app.tasks[ti].id == 3));
    assert!(app.find_match("zzz").is_none());
    assert!(app.find_match("   ").is_none());
}

#[test]
fn gg_and_capital_g_jump_to_top_and_bottom() {
    let mut app = app_with(4);
    stagger(&mut app);
    let bottom = app.rows().len() - 1;
    app.selected = 1;

    app.on_normal_key(KeyCode::Char('G'));
    assert_eq!(app.selected, bottom);

    app.on_normal_key(KeyCode::Char('g')); // arms
    assert!(app.g_pending);
    app.on_normal_key(KeyCode::Char('g')); // fires → top
    assert_eq!(app.selected, 0);
    assert!(!app.g_pending);

    // A lone `g` then any other key cancels the pending gg.
    app.on_normal_key(KeyCode::Char('g'));
    app.on_normal_key(KeyCode::Char('j'));
    assert!(!app.g_pending);
}

#[test]
fn yank_sets_status_for_each_row_kind() {
    let mut app = app_with(1);
    app.tasks[0].subtasks = vec![SubTask { title: "sub".into(), done: false }];
    app.add_note(app.tasks[0].id, "a note".into()); // auto-expands
    app.selected = 0;
    app.yank_selected();
    assert_eq!(app.status.as_deref(), Some("yanked: t0"));
    app.selected = 1; // subtask row
    app.yank_selected();
    assert_eq!(app.status.as_deref(), Some("yanked: sub"));
    app.selected = 2; // note row
    app.yank_selected();
    assert_eq!(app.status.as_deref(), Some("yanked: a note"));
}

#[test]
fn board_deletable_guards_active_and_last() {
    assert!(board_deletable("work", "default", 2).is_ok());
    assert!(board_deletable("default", "default", 2).is_err()); // active
    assert!(board_deletable("only", "default", 1).is_err()); // last board
}

#[test]
fn selection_clamps_to_bounds() {
    assert_eq!(move_selection(0, 0, 1), 0);
    assert_eq!(move_selection(0, 3, -1), 0);
    assert_eq!(move_selection(2, 3, 1), 2);
    assert_eq!(move_selection(1, 3, 1), 2);
    assert_eq!(move_selection(1, 3, -1), 0);
}

#[test]
fn add_assigns_next_id() {
    let mut app = app_with(2);
    app.add_task("new".into());
    assert_eq!(app.tasks.len(), 3);
    assert_eq!(app.tasks.last().unwrap().id, 3);
}

#[test]
fn toggle_task_flips_done() {
    let mut app = app_with(1);
    assert!(app.toggle_selected());
    assert!(app.tasks[0].done);
}

#[test]
fn remove_clamps_selection() {
    let mut app = app_with(3);
    app.selected = 2;
    assert!(app.remove_selected());
    assert_eq!(app.selected, 1);
}

#[test]
fn mutations_on_empty_are_noops() {
    let mut app = app_with(0);
    assert!(!app.toggle_selected());
    assert!(!app.remove_selected());
    assert!(!app.revive_selected());
}

#[test]
fn expand_reveals_subtask_rows_and_toggles_them() {
    let mut app = app_with(1);
    app.tasks[0].subtasks = vec![sub("a"), sub("b")];
    assert_eq!(app.rows().len(), 1); // collapsed: just the task
    app.selected = 0;
    app.toggle_expand();
    assert_eq!(app.rows().len(), 3); // task + 2 subtasks

    // move to first subtask row and toggle it
    app.selected = 1;
    assert!(app.toggle_selected());
    assert!(app.tasks[0].subtasks[0].done);
    assert!(!app.tasks[0].subtasks[1].done);
}

#[test]
fn add_subtask_appends_and_expands() {
    let mut app = app_with(1);
    let id = app.tasks[0].id;
    app.add_subtask(id, "first".into());
    assert_eq!(app.tasks[0].subtasks.len(), 1);
    assert!(app.expanded.contains(&id)); // auto-revealed
    assert_eq!(app.rows().len(), 2); // task + 1 subtask
}

#[test]
fn edit_targets_the_selected_subtask_and_note_row() {
    let mut app = app_with(1);
    let id = app.tasks[0].id;
    app.add_subtask(id, "old sub".into());
    app.add_note(id, "old note".into());

    app.apply_edit_sub(id, 0, "new sub".into());
    assert_eq!(app.tasks[0].subtasks[0].title, "new sub");
    app.apply_edit_note(id, 0, "new note".into());
    assert_eq!(app.tasks[0].notes[0].text, "new note");
    // task title untouched by subtask/note edits
    assert_eq!(app.tasks[0].title, "t0");
}

#[test]
fn remove_on_subtask_row_deletes_only_the_subtask() {
    let mut app = app_with(1);
    app.tasks[0].subtasks = vec![sub("a"), sub("b")];
    app.toggle_expand(); // selected is task row 0
    app.selected = 1; // first subtask row
    assert!(app.remove_selected());
    assert_eq!(app.tasks.len(), 1); // task survives
    assert_eq!(app.tasks[0].subtasks.len(), 1);
    assert_eq!(app.tasks[0].subtasks[0].title, "b");
}

#[test]
fn add_note_appends_expands_and_note_row_is_removable() {
    let mut app = app_with(1);
    let id = app.tasks[0].id;
    app.add_note(id, "  weigh the tradeoff  ".into());
    assert_eq!(app.tasks[0].notes.len(), 1);
    assert_eq!(app.tasks[0].notes[0].text, "weigh the tradeoff"); // trimmed
    assert!(app.expanded.contains(&id)); // auto-revealed
    assert_eq!(app.rows().len(), 2); // task + 1 note row

    // notes have no done state: space is a no-op on a note row
    app.selected = 1;
    assert!(!app.toggle_selected());
    // but the note row can be deleted
    assert!(app.remove_selected());
    assert!(app.tasks[0].notes.is_empty());
    assert_eq!(app.tasks.len(), 1); // task survives
}

#[test]
fn edit_tags_sets_normalizes_dedups_and_clears() {
    let mut app = app_with(1);
    let id = app.tasks[0].id;
    app.apply_tags(id, "  Perf  #Monitoring perf ".into());
    assert_eq!(app.tasks[0].tags, vec!["perf", "monitoring"]); // trimmed, lowercased, deduped, # stripped
    app.apply_tags(id, String::new());
    assert!(app.tasks[0].tags.is_empty()); // empty input clears
}

#[test]
fn sort_priority_hot_bubbling_first() {
    assert!(sort_rank(Status::Hot) < sort_rank(Status::Bubbling));
    assert!(sort_rank(Status::Bubbling) < sort_rank(Status::Decaying));
    assert!(sort_rank(Status::Decaying) < sort_rank(Status::Dormant));
}

#[test]
fn bubble_glyph_cycles() {
    assert_eq!(bubble_glyph(0), "·");
    assert_eq!(bubble_glyph(0), bubble_glyph(2 * BUBBLES.len() as u64));
}

#[test]
fn theme_named_falls_back_to_default_on_unknown() {
    let default = Theme::named("neon_purple");
    assert_eq!(Theme::named("bogus").accent, default.accent);
    assert_ne!(Theme::named("neon_teal").accent, default.accent);
}

fn global(cfg: &Config, f: CfgField, input: &str) -> Result<Config, String> {
    apply_cfg(cfg, "default", Scope::Global, f, input)
}

#[test]
fn apply_cfg_theme_validates_name_and_switches() {
    let cfg = Config::default();
    assert_eq!(global(&cfg, CfgField::Theme, "neon_teal").unwrap().theme, "neon_teal");
    assert!(global(&cfg, CfgField::Theme, "nope").is_err());
}

#[test]
fn apply_cfg_parses_validates_and_rejects() {
    let cfg = Config::default();
    // valid span edit round-trips through the human format
    let next = global(&cfg, CfgField::HotWindow, "1d").unwrap();
    assert_eq!(next.hot_window.as_human(), "1d");
    // tick_fps parses as a number
    assert_eq!(global(&cfg, CfgField::TickFps, "30").unwrap().tick_fps, 30);
    // garbage span and number are rejected
    assert!(global(&cfg, CfgField::HotWindow, "nope").is_err());
    assert!(global(&cfg, CfgField::TickFps, "x").is_err());
    // tick_fps must be >= 1, and hot_window must stay <= dormant_after
    assert!(global(&cfg, CfgField::TickFps, "0").is_err());
    assert!(global(&cfg, CfgField::HotWindow, "999d").is_err());
}

#[test]
fn apply_cfg_board_scope_sets_clears_and_validates() {
    let cfg = Config::default();
    // Board-scope edit records an override, leaving the global untouched.
    let c = apply_cfg(&cfg, "work", Scope::Board, CfgField::HotWindow, "1d").unwrap();
    assert_eq!(c.boards.get("work").unwrap().hot_window, Some(Span::parse("1d").unwrap()));
    assert_eq!(c.hot_window, cfg.hot_window);
    // Empty input clears the override and drops the now-empty entry.
    let c = apply_cfg(&c, "work", Scope::Board, CfgField::HotWindow, "").unwrap();
    assert!(!c.boards.contains_key("work"));
    // A board override that breaks hot_window <= dormant_after is rejected.
    assert!(apply_cfg(&cfg, "work", Scope::Board, CfgField::HotWindow, "999d").is_err());
    // tick_fps is not editable per-board.
    assert!(apply_cfg(&cfg, "work", Scope::Board, CfgField::TickFps, "30").is_err());
}

#[test]
fn views_partition_active_dormant_and_done() {
    let mut app = app_with(0);
    app.tasks.push(task(1, "fresh")); // active
    let mut dorm = task(2, "dorm");
    dorm.last_updated = now() - 16 * 86_400; // dormant band
    app.tasks.push(dorm);
    let mut done = task(3, "done");
    done.done = true;
    app.tasks.push(done);

    app.view = Section::Active;
    assert_eq!(app.visible(), vec![0]);
    app.view = Section::Dormant;
    assert_eq!(app.visible(), vec![1]);
    app.view = Section::Done;
    assert_eq!(app.visible(), vec![2]);
}

#[test]
fn delete_from_done_view_retires_task() {
    let mut app = app_with(0);
    let mut done = task(1, "done");
    done.done = true;
    app.tasks.push(done);
    app.view = Section::Done;
    assert!(app.remove_selected());
    assert!(app.tasks.is_empty());
}

#[test]
fn revive_clears_done_and_returns_to_active() {
    let mut app = app_with(0);
    let mut done = task(1, "done");
    done.done = true;
    app.tasks.push(done);
    app.view = Section::Done;
    assert!(app.revive_selected());
    assert!(!app.tasks[0].done);
    app.view = Section::Active;
    assert_eq!(app.visible(), vec![0]);
}

#[test]
fn yank_hands_out_the_clipboard_escape() {
    let mut app = app_with(1);
    app.tasks[0].title = "foobar".into();
    assert_eq!(app.yank_selected().unwrap(), "\x1b]52;c;Zm9vYmFy\x07");
    assert_eq!(clipboard_escape("é"), "\x1b]52;c;w6k=\x07");
    let mut empty = app_with(0);
    assert_eq!(empty.yank_selected(), None);
    assert_eq!(empty.status, None);
}

#[test]
fn long_yanks_show_their_end() {
    let mut app = app_with(1);
    app.tasks[0].title = "x".repeat(10) + &"y".repeat(40);
    assert_eq!(app.on_normal_key(KeyCode::Char('y')) == Effect::Nothing, false);
    assert_eq!(app.status, Some(format!("yanked: {}", "y".repeat(40))));
}

#[test]
fn help_opens_and_any_key_closes_it() {
    let mut app = app_with(1);
    app.on_normal_key(KeyCode::Char('?'));
    assert!(matches!(app.mode, Mode::Help));
    assert_eq!(app.on_key_at(KeyCode::Other, false, now()), Effect::Nothing);
    assert!(matches!(app.mode, Mode::Normal));
}
