use zym::app::{App, Mode, Row, Section};
use zym::config::{BoardOverrides, Config, Span};
use zym::keys::{tick_millis, Effect, FileOutcome, KeyCode};
use zym::model::{SubTask, Task};
use zym::settings::{CfgField, Scope};

const NOW: u64 = 100_000_000;
const DAY: u64 = 86_400;

fn s(text: &str) -> String {
    text.to_string()
}

fn task(id: u64, title: &str, age: u64) -> Task {
    Task::new_at(id, s(title), NOW - age)
}

fn app() -> App {
    let tasks = vec![
        task(1, "oldest", 30),
        task(2, "middle", 20),
        task(3, "newest", 10),
    ];
    App::new(Config::with_data_dir(None), tasks)
}

fn press(a: &mut App, code: KeyCode) -> Effect {
    a.on_key_at(code, false, NOW)
}

fn type_in(a: &mut App, text: &str) {
    for c in text.chars() {
        assert_eq!(press(a, KeyCode::Char(c)), Effect::Nothing);
    }
}

fn titles(a: &App) -> Vec<String> {
    a.visible_at(NOW).iter().map(|&i| a.tasks[i].title.clone()).collect()
}

#[test]
fn moving_stays_in_the_list() {
    let mut a = app();
    assert_eq!(titles(&a), vec!["newest", "middle", "oldest"]);
    for _ in 0..5 {
        press(&mut a, KeyCode::Char('j'));
    }
    assert_eq!(a.selected, 2);
    press(&mut a, KeyCode::Up);
    assert_eq!(a.selected, 1);
    for _ in 0..5 {
        press(&mut a, KeyCode::Char('k'));
    }
    assert_eq!(a.selected, 0);
}

#[test]
fn hot_and_bubbling_rise_above_decaying() {
    let mut a = app();
    a.tasks = vec![
        task(1, "decaying", 5 * DAY),
        task(2, "bubbling", 60 * DAY),
        task(3, "hot", 0),
        task(4, "older hot", 50),
        task(5, "dormant", 20 * DAY),
    ];
    assert_eq!(titles(&a), vec!["hot", "older hot", "bubbling", "decaying"]);
    assert!(a.has_animation_at(NOW));
    a.view = Section::Dormant;
    assert_eq!(titles(&a), vec!["dormant"]);
    assert!(!a.has_animation_at(NOW));
}

#[test]
fn ties_keep_the_order_of_the_list() {
    let mut a = app();
    a.tasks = vec![task(1, "first", 10), task(2, "second", 10), task(3, "newer", 5)];
    assert_eq!(titles(&a), vec!["newer", "first", "second"]);
}

#[test]
fn tab_cycles_through_the_sections() {
    let mut a = app();
    a.selected = 2;
    press(&mut a, KeyCode::Tab);
    assert_eq!((a.view, a.selected), (Section::Dormant, 0));
    press(&mut a, KeyCode::Tab);
    assert_eq!(a.view, Section::Done);
    press(&mut a, KeyCode::Tab);
    assert_eq!(a.view, Section::Active);
}

#[test]
fn adding_a_task_saves_and_returns_to_the_list() {
    let mut a = app();
    press(&mut a, KeyCode::Char('a'));
    assert!(matches!(a.mode, Mode::Add));
    type_in(&mut a, " brew beer ");
    assert_eq!(press(&mut a, KeyCode::Enter), Effect::SaveTasks);
    assert!(matches!(a.mode, Mode::Normal));
    let t = a.tasks.last().unwrap();
    assert_eq!((t.id, t.title.as_str(), t.last_updated), (4, "brew beer", NOW));
    assert_eq!((a.input.as_str(), a.cursor, a.selected), ("", 0, 0));
}

#[test]
fn blank_lines_are_not_submitted() {
    let mut a = app();
    for key in ['a', 's', 'n', 'e'] {
        let before = a.tasks.clone();
        press(&mut a, KeyCode::Char(key));
        a.set_input(s("   "));
        assert_eq!(press(&mut a, KeyCode::Enter), Effect::Nothing);
        assert!(matches!(a.mode, Mode::Normal));
        assert_eq!(a.tasks, before);
    }
}

#[test]
fn editing_starts_from_the_row_and_escape_drops_it() {
    let mut a = app();
    a.tasks[2].subtasks.push(SubTask { title: s("step"), done: false });
    a.tasks[2].add_note_at("why", NOW);
    press(&mut a, KeyCode::Enter); // expand
    assert_eq!(a.rows_at(NOW)[..3], [Row::Task(2), Row::Sub(2, 0), Row::Note(2, 0)]);
    let before = a.tasks.clone();
    press(&mut a, KeyCode::Char('e'));
    assert!(matches!(a.mode, Mode::Edit(3)));
    assert_eq!((a.input.as_str(), a.cursor), ("newest", 6));
    type_in(&mut a, "!");
    assert_eq!(press(&mut a, KeyCode::Esc), Effect::Nothing);
    assert_eq!(a.tasks, before);
    assert!(matches!(a.mode, Mode::Normal));

    a.selected = 1;
    press(&mut a, KeyCode::Char('e'));
    assert!(matches!(a.mode, Mode::EditSub(3, 0)));
    type_in(&mut a, "s");
    assert_eq!(press(&mut a, KeyCode::Enter), Effect::SaveTasks);
    assert_eq!(a.tasks[2].subtasks[0].title, "steps");

    a.selected = 2;
    press(&mut a, KeyCode::Char('e'));
    assert!(matches!(a.mode, Mode::EditNote(3, 0)));
    type_in(&mut a, "?");
    press(&mut a, KeyCode::Enter);
    assert_eq!(a.tasks[2].notes[0].text, "why?");
    assert_eq!(a.tasks[2].title, "newest");
}

#[test]
fn the_input_line_is_edited_in_place() {
    let mut a = app();
    press(&mut a, KeyCode::Char('a'));
    type_in(&mut a, "aéb");
    press(&mut a, KeyCode::Left);
    press(&mut a, KeyCode::Left);
    type_in(&mut a, "x");
    assert_eq!((a.input.as_str(), a.cursor), ("axéb", 2));
    press(&mut a, KeyCode::Backspace);
    assert_eq!((a.input.as_str(), a.cursor), ("aéb", 1));
    press(&mut a, KeyCode::Delete);
    assert_eq!((a.input.as_str(), a.cursor), ("ab", 1));
    a.on_key_at(KeyCode::Char('e'), true, NOW);
    assert_eq!(a.cursor, 2);
    press(&mut a, KeyCode::Delete); // nothing behind the end
    a.on_key_at(KeyCode::Char('a'), true, NOW);
    press(&mut a, KeyCode::Backspace); // nothing before the start
    assert_eq!((a.input.as_str(), a.cursor), ("ab", 0));
    press(&mut a, KeyCode::Right);
    a.on_key_at(KeyCode::Char('u'), true, NOW);
    assert_eq!((a.input.as_str(), a.cursor), ("b", 0));
    press(&mut a, KeyCode::End);
    press(&mut a, KeyCode::Right);
    assert_eq!(a.cursor, 1);
    press(&mut a, KeyCode::Home);
    press(&mut a, KeyCode::Left);
    assert_eq!(a.cursor, 0);
    a.on_key_at(KeyCode::Char('z'), true, NOW); // an unbound control key
    assert_eq!(a.input, "b");
}

#[test]
fn tags_are_edited_as_a_line() {
    let mut a = app();
    a.tasks[2].add_tag("perf");
    a.tasks[2].add_tag("org");
    press(&mut a, KeyCode::Char('t'));
    assert!(matches!(a.mode, Mode::EditTags(3)));
    assert_eq!(a.input, "perf org");
    a.set_input(s("#New ##new other"));
    assert_eq!(press(&mut a, KeyCode::Enter), Effect::SaveTasks);
    assert_eq!(a.tasks[2].tags, vec!["new", "other"]);
    press(&mut a, KeyCode::Char('t'));
    a.clear_input();
    assert_eq!(press(&mut a, KeyCode::Enter), Effect::SaveTasks);
    assert!(a.tasks[2].tags.is_empty());
}

#[test]
fn searching_follows_what_is_typed() {
    let mut a = app();
    press(&mut a, KeyCode::Char('/'));
    type_in(&mut a, "OLD");
    assert_eq!(a.selected, 2);
    type_in(&mut a, "zz"); // no hit: stays
    assert_eq!(a.selected, 2);
    assert_eq!(press(&mut a, KeyCode::Enter), Effect::Nothing);
    assert!(matches!(a.mode, Mode::Normal));
    assert_eq!((a.selected, a.input.as_str()), (2, ""));
}

#[test]
fn space_r_and_x_save_what_they_changed() {
    let mut a = app();
    assert_eq!(press(&mut a, KeyCode::Char(' ')), Effect::SaveTasks);
    assert!(a.tasks[2].done);
    a.view = Section::Done;
    a.selected = 0;
    assert_eq!(press(&mut a, KeyCode::Char('r')), Effect::SaveTasks);
    assert!(!a.tasks[2].done);
    assert_eq!(press(&mut a, KeyCode::Char('d')), Effect::Nothing); // section is empty now
    a.view = Section::Active;
    assert_eq!(press(&mut a, KeyCode::Char('x')), Effect::SaveTasks);
    assert_eq!(a.tasks.len(), 2);
    assert_eq!(press(&mut a, KeyCode::Delete), Effect::SaveTasks);
    assert_eq!(press(&mut a, KeyCode::Delete), Effect::SaveTasks);
    assert_eq!(press(&mut a, KeyCode::Delete), Effect::Nothing);
    assert!(a.tasks.is_empty());
}

#[test]
fn expanding_twice_restores_the_list() {
    let mut a = app();
    for t in a.tasks.iter_mut() {
        t.subtasks.push(SubTask { title: s("x"), done: false });
    }
    let before = a.rows_at(NOW);
    a.selected = 1;
    press(&mut a, KeyCode::Right);
    assert_eq!(a.rows_at(NOW).len(), 4);
    press(&mut a, KeyCode::Right);
    assert_eq!(a.rows_at(NOW), before);
}

#[test]
fn q_and_escape_quit_from_the_list_only() {
    let mut a = app();
    press(&mut a, KeyCode::Char('c'));
    press(&mut a, KeyCode::Char('q'));
    assert!(!a.quit && matches!(a.mode, Mode::Normal));
    press(&mut a, KeyCode::Char('a'));
    press(&mut a, KeyCode::Char('q'));
    press(&mut a, KeyCode::Esc);
    assert!(!a.quit);
    press(&mut a, KeyCode::Char('q'));
    assert!(a.quit);
    let mut b = app();
    press(&mut b, KeyCode::Esc);
    assert!(b.quit);
}

#[test]
fn settings_are_edited_and_saved() {
    let mut a = app();
    press(&mut a, KeyCode::Char('c'));
    press(&mut a, KeyCode::Enter);
    assert!(matches!(a.mode, Mode::EditCfg(CfgField::HotWindow)));
    assert_eq!(a.input, "2d");
    a.set_input(s("999d"));
    assert_eq!(press(&mut a, KeyCode::Enter), Effect::Nothing);
    assert_eq!(a.status, Some(s("hot_window (999d) must be <= dormant_after (2w)")));
    assert_eq!(a.input, "999d"); // kept for a retry
    a.set_input(s("3d"));
    assert_eq!(press(&mut a, KeyCode::Enter), Effect::SaveConfig { report: true });
    assert_eq!(a.cfg.hot_window, Span(3 * DAY));
    assert!(matches!(a.mode, Mode::Config));
    a.save_cfg(Some(s("disk full")));
    assert_eq!(a.status, Some(s("config save failed: disk full")));
    press(&mut a, KeyCode::Other);
    assert_eq!(a.status, None);
}

#[test]
fn board_scope_edits_overrides() {
    let mut a = app();
    press(&mut a, KeyCode::Char('c'));
    press(&mut a, KeyCode::Tab);
    assert!(a.cfg_scope == Scope::Board);
    for _ in 0..9 {
        press(&mut a, KeyCode::Down);
    }
    assert_eq!(a.cfg_sel, 4);
    press(&mut a, KeyCode::Enter);
    assert_eq!(a.input, ""); // unset: starts blank
    a.set_input(s("neon_teal"));
    press(&mut a, KeyCode::Enter);
    assert_eq!(a.cfg.boards.get("default").unwrap().theme, Some(s("neon_teal")));
    assert_eq!(a.cfg.theme, "neon_purple");
    assert_eq!(a.theme.accent, zym::theme::Theme::named("neon_teal").accent); // live
    press(&mut a, KeyCode::Up);
    press(&mut a, KeyCode::Enter);
    assert_eq!(a.status, Some(s("tick_fps is global-only")));
    assert!(matches!(a.mode, Mode::Config));
    assert_eq!(a.cfg_edit_value(CfgField::Theme), "neon_teal");
    assert_eq!(a.cfg_edit_value(CfgField::HotWindow), "");
}

#[test]
fn the_picker_lists_the_active_board() {
    let mut a = app();
    assert_eq!(press(&mut a, KeyCode::Char('b')), Effect::ListBoards { save_config: false });
    a.open_boards(vec![s("alpha"), s("work")]);
    match &a.mode {
        Mode::Boards { names, sel } => {
            assert_eq!(names, &vec!["alpha", "default", "work"]);
            assert_eq!(*sel, 1);
        }
        _ => panic!("no picker"),
    }
    assert_eq!(press(&mut a, KeyCode::Enter), Effect::LoadBoard(s("default")));
    press(&mut a, KeyCode::Down);
    press(&mut a, KeyCode::Down);
    assert_eq!(press(&mut a, KeyCode::Enter), Effect::LoadBoard(s("work")));
    assert_eq!(a.board_names(vec![s("default")]), vec!["default"]);
}

#[test]
fn switching_boards_starts_afresh() {
    let mut a = app();
    a.cfg.boards.insert(
        s("work"),
        BoardOverrides { theme: Some(s("neon_teal")), ..Default::default() },
    );
    a.selected = 2;
    a.view = Section::Done;
    a.expanded.insert(1);
    let r = a.switch_board(s("work"), Ok(vec![task(9, "w", 0)]));
    assert_eq!(r, Effect::SaveConfig { report: false });
    assert_eq!((a.board.as_str(), a.cfg.active_board.as_str()), ("work", "work"));
    assert_eq!((a.selected, a.view, a.expanded.len()), (0, Section::Active, 0));
    assert_eq!(a.status, Some(s("switched to work")));
    assert_eq!(a.theme.accent, zym::theme::Theme::named("neon_teal").accent);
    let r = a.switch_board(s("home"), Err(s("bad json")));
    assert_eq!(r, Effect::Nothing);
    assert_eq!((a.board.as_str(), a.tasks.len()), ("work", 1));
    assert_eq!(a.status, Some(s("load failed: bad json")));
}

#[test]
fn creating_a_board_needs_a_name_and_no_file() {
    let mut a = app();
    a.open_boards(vec![]);
    press(&mut a, KeyCode::Char('a'));
    assert!(matches!(a.mode, Mode::AddBoard));
    assert_eq!(press(&mut a, KeyCode::Enter), Effect::Nothing);
    assert_eq!(a.status, Some(s("board name is empty")));
    type_in(&mut a, " side ");
    assert_eq!(press(&mut a, KeyCode::Enter), Effect::CreateBoard(s("side")));
    assert_eq!(a.create_board(s("side"), FileOutcome::Exists), Effect::Nothing);
    assert_eq!(a.status, Some(s("board 'side' already exists")));
    assert_eq!(a.create_board(s("side"), FileOutcome::Failed(s("full"))), Effect::Nothing);
    assert_eq!(a.status, Some(s("save failed: full")));
    assert_eq!(a.create_board(s("side"), FileOutcome::Done), Effect::LoadBoard(s("side")));
    assert_eq!(press(&mut a, KeyCode::Esc), Effect::ListBoards { save_config: false });
}

#[test]
fn renaming_carries_overrides_along() {
    let mut a = app();
    a.cfg.boards.insert(
        s("default"),
        BoardOverrides { hot_window: Some(Span(60)), ..Default::default() },
    );
    a.open_boards(vec![s("default"), s("work")]);
    press(&mut a, KeyCode::Char('r'));
    assert!(matches!(&a.mode, Mode::RenameBoard { old_name } if old_name == "default"));
    assert_eq!(a.input, "default");
    assert_eq!(press(&mut a, KeyCode::Enter), Effect::ListBoards { save_config: false }); // same name
    a.mode = Mode::RenameBoard { old_name: s("default") };
    a.set_input(s("main"));
    assert_eq!(
        press(&mut a, KeyCode::Enter),
        Effect::RenameBoard { from: s("default"), to: s("main") }
    );
    let r = a.rename_board(s("default"), s("main"), FileOutcome::Exists);
    assert_eq!(r, Effect::Nothing);
    assert_eq!(a.status, Some(s("board 'main' already exists")));
    let r = a.rename_board(s("default"), s("main"), FileOutcome::Failed(s("busy")));
    assert_eq!(r, Effect::Nothing);
    assert_eq!(a.status, Some(s("rename failed: busy")));
    assert_eq!(a.board, "default");
    let r = a.rename_board(s("default"), s("main"), FileOutcome::Done);
    assert_eq!(r, Effect::ListBoards { save_config: true });
    assert_eq!((a.board.as_str(), a.cfg.active_board.as_str()), ("main", "main"));
    assert_eq!(a.cfg.boards.get("main").unwrap().hot_window, Some(Span(60)));
    assert!(!a.cfg.boards.contains_key("default"));
    assert_eq!(a.status, Some(s("renamed to main")));
}

#[test]
fn deleting_a_board_is_guarded_and_confirmed() {
    let mut a = app();
    a.open_boards(vec![s("default"), s("work")]);
    assert_eq!(press(&mut a, KeyCode::Char('x')), Effect::GuardDelete(s("default")));
    a.guard_delete(s("default"), vec![s("default"), s("work")]);
    assert_eq!(a.status, Some(s("cannot delete the active board")));
    a.guard_delete(s("work"), vec![s("default")]);
    assert_eq!(a.status, Some(s("cannot delete the only board")));
    press(&mut a, KeyCode::Down);
    assert_eq!(press(&mut a, KeyCode::Delete), Effect::GuardDelete(s("work")));
    a.guard_delete(s("work"), vec![s("default"), s("work")]);
    assert!(matches!(&a.mode, Mode::ConfirmDeleteBoard { name } if name == "work"));
    assert_eq!(press(&mut a, KeyCode::Char('z')), Effect::Nothing);
    assert_eq!(press(&mut a, KeyCode::Char('n')), Effect::ListBoards { save_config: false });
    assert_eq!(press(&mut a, KeyCode::Char('Y')), Effect::RemoveBoard(s("work")));
    let r = a.delete_board(s("work"), Some(s("busy")));
    assert_eq!(r, Effect::ListBoards { save_config: false });
    assert_eq!(a.status, Some(s("delete failed: busy")));
    a.cfg.boards.insert(s("work"), BoardOverrides::default());
    assert_eq!(a.delete_board(s("work"), None), Effect::ListBoards { save_config: true });
    assert!(!a.cfg.boards.contains_key("work"));
    assert_eq!(a.status, Some(s("deleted work")));
    assert_eq!(a.delete_board(s("gone"), None), Effect::ListBoards { save_config: false });
}

#[test]
fn failed_saves_are_shown() {
    let mut a = app();
    a.persist(None);
    assert_eq!(a.status, None);
    a.persist(Some(s("full")));
    assert_eq!(a.status, Some(s("save failed: full")));
}

#[test]
fn ticks_move_the_animation_on() {
    let mut a = app();
    assert!(a.on_tick_at(NOW)); // hot tasks breathe
    assert_eq!(a.frame, 1);
    a.frame = u64::MAX;
    a.view = Section::Done;
    assert!(!a.on_tick_at(NOW));
    assert_eq!(a.frame, 0);
    assert_eq!(tick_millis(12), 83);
    assert_eq!(tick_millis(0), 1000);
    assert_eq!(tick_millis(2000), 0);
}

#[test]
fn ids_run_out_for_new_tasks() {
    let mut a = app();
    assert!(a.has_free_id());
    a.tasks[0].id = u64::MAX;
    assert!(!a.has_free_id());
    // A blank line needs no id.
    press(&mut a, KeyCode::Char('a'));
    type_in(&mut a, "  ");
    assert!(!a.adds_a_task());
    assert_eq!(press(&mut a, KeyCode::Enter), Effect::Nothing);
    assert!(matches!(a.mode, Mode::Normal));
    assert_eq!(a.tasks.len(), 3);
    press(&mut a, KeyCode::Char('a'));
    type_in(&mut a, "x");
    assert!(a.adds_a_task());
}

#[test]
fn matching_takes_lowered_titles() {
    let a = app();
    let rows = a.rows_at(NOW);
    let lowered: Vec<String> = a.tasks.iter().map(|t| t.title.to_uppercase()).collect();
    assert_eq!(a.match_in(&rows, &lowered, "MID"), Some(1));
    assert_eq!(a.match_in(&rows, &lowered, "mid"), None);
}
