use zym::cli::{
    ago, config_heading, config_outcome, ids_left, import, listing, one_based, run, select, show, status_of,
    status_str, tag_suffix, Cli, Command, ConfigOutcome, NoteCmd, Outcome, StatusFilter, SubtaskCmd, TagCmd,
};
use zym::config::Config;
use zym::model::{Note, Status, SubTask, Task, Timestamp};

const NOW: Timestamp = 100_000_000;
const DAY: u64 = 86_400;

fn aged(id: u64, secs_ago: u64, done: bool) -> Task {
    let mut t = Task::new(id, format!("t{id}"));
    t.done = done;
    t.last_updated = NOW - secs_ago;
    t
}

fn s(text: &str) -> String {
    text.to_string()
}

fn saved(r: Result<Outcome, String>) -> String {
    match r {
        Ok(Outcome::Save(m)) => m,
        Ok(_) => panic!("nothing to save"),
        Err(e) => panic!("{}", e),
    }
}

fn printed(r: Result<Outcome, String>) -> Vec<String> {
    match r {
        Ok(Outcome::Print(lines)) => lines,
        Ok(_) => panic!("nothing to print"),
        Err(e) => panic!("{}", e),
    }
}

fn failed(r: Result<Outcome, String>) -> String {
    match r {
        Ok(_) => panic!("no failure"),
        Err(e) => e,
    }
}

#[test]
fn one_based_is_one_based_and_bounded() {
    assert_eq!(one_based(1, 2, "subtask", 1).unwrap(), 0);
    assert_eq!(one_based(2, 2, "subtask", 1).unwrap(), 1);
    assert!(one_based(0, 2, "subtask", 1).is_err()); // 0 is not valid (1-based)
    assert!(one_based(3, 2, "subtask", 1).is_err()); // out of range
}

#[test]
fn ago_picks_largest_whole_unit() {
    assert_eq!(ago(100, 100), "just now");
    assert_eq!(ago(3 * 86_400 + 5, 0), "3d ago");
    assert_eq!(ago(90 * 60, 0), "1h ago");
    assert_eq!(ago(50, 100), "just now"); // clock jumped back: saturates
}

#[test]
fn next_id_increments() {
    assert_eq!(Task::next_id(&[]), 1);
    assert_eq!(Task::next_id(&[aged(1, 0, false), aged(4, 0, false)]), 5);
}

#[test]
fn select_hides_done_and_dormant_by_default() {
    let cfg = Config::default(); // hot<2d, dormant>14d
    let now = NOW;
    let day = 86_400;
    let tasks = vec![
        aged(1, 0, false),        // hot
        aged(2, 0, true),         // hot but done
        aged(3, 20 * day, false), // dormant
    ];
    let ids: Vec<u64> =
        select(&tasks, &cfg, None, None, false, now).iter().map(|t| t.id).collect();
    assert_eq!(ids, vec![1]);

    // --all shows everything
    assert_eq!(select(&tasks, &cfg, None, None, true, now).len(), 3);

    // status filter targets a band regardless of done/dormant defaults
    let dormant: Vec<u64> = select(&tasks, &cfg, Some(StatusFilter::Dormant), None, false, now)
        .iter()
        .map(|t| t.id)
        .collect();
    assert_eq!(dormant, vec![3]);
}

#[test]
fn select_filters_by_tag() {
    let cfg = Config::default();
    let now = NOW;
    let mut a = aged(1, 0, false);
    a.add_tag("perf");
    let mut b = aged(2, 0, false);
    b.add_tag("org");
    let tasks = vec![a, b];
    let ids: Vec<u64> =
        select(&tasks, &cfg, None, Some("perf"), false, now).iter().map(|t| t.id).collect();
    assert_eq!(ids, vec![1]);
}

#[test]
fn select_sorts_recent_first() {
    let cfg = Config::default();
    let now = NOW;
    let tasks = vec![aged(1, 500, false), aged(2, 10, false), aged(3, 100, false)];
    let ids: Vec<u64> =
        select(&tasks, &cfg, None, None, true, now).iter().map(|t| t.id).collect();
    assert_eq!(ids, vec![2, 3, 1]);
}

#[test]
fn select_keeps_ties_in_list_order_and_finds_each_band() {
    let cfg = Config::default();
    let tasks = vec![
        aged(5, 3 * DAY, false),
        aged(6, 0, true),
        aged(7, 3 * DAY, false),
        aged(8, 60 * DAY, false),
    ];
    let ids = |f: Option<StatusFilter>, all: bool| -> Vec<u64> {
        select(&tasks, &cfg, f, None, all, NOW).iter().map(|t| t.id).collect()
    };
    assert_eq!(ids(None, true), vec![6, 5, 7, 8]);
    assert_eq!(ids(Some(StatusFilter::Hot), false), vec![6]);
    assert_eq!(ids(Some(StatusFilter::Decaying), false), vec![5, 7]);
    assert_eq!(ids(Some(StatusFilter::Bubbling), false), vec![8]);
    assert_eq!(ids(Some(StatusFilter::Dormant), true), Vec::<u64>::new());
    assert_eq!(ids(None, false), vec![5, 7, 8]);
}

#[test]
fn ago_covers_every_unit() {
    assert_eq!(ago(59, 0), "just now");
    assert_eq!(ago(60, 0), "1m ago");
    assert_eq!(ago(3_599, 0), "59m ago");
    assert_eq!(ago(3_600, 0), "1h ago");
    assert_eq!(ago(86_400, 0), "1d ago");
    assert_eq!(ago(604_799, 0), "6d ago");
    assert_eq!(ago(2 * 604_800, 0), "2w ago");
}

#[test]
fn one_based_says_what_is_missing() {
    assert_eq!(one_based(3, 2, "subtask", 9), Err(s("no subtask 3 on task 9")));
    assert_eq!(one_based(0, 0, "note", 1), Err(s("no note 0 on task 1")));
}

#[test]
fn statuses_have_names() {
    assert_eq!(status_str(Status::Hot), "hot");
    assert_eq!(status_str(Status::Decaying), "decaying");
    assert_eq!(status_str(Status::Dormant), "dormant");
    assert_eq!(status_str(Status::Bubbling), "bubbling");
    assert_eq!(status_of(&aged(1, 50 * DAY, false), &Config::default(), NOW), Status::Bubbling);
}

#[test]
fn tags_trail_a_line() {
    let mut t = aged(1, 0, false);
    assert_eq!(tag_suffix(&t), "");
    t.add_tag("a");
    t.add_tag("b");
    assert_eq!(tag_suffix(&t), "  #a #b");
}

#[test]
fn list_lines_are_aligned() {
    let mut t = aged(7, 0, false);
    t.add_tag("perf");
    t.subtasks.push(SubTask { title: s("x"), done: true });
    t.subtasks.push(SubTask { title: s("y"), done: false });
    assert_eq!(listing(&t, Status::Hot), "   7 [ ] hot      t7 [1/2]  #perf");
    assert_eq!(listing(&aged(12345, 0, true), Status::Bubbling), "12345 [x] bubbling t12345");
}

#[test]
fn add_composes_a_task() {
    let cfg = Config::default();
    let mut tasks = vec![aged(4, 0, false)];
    let cmd = Command::Add {
        title: s("brew"),
        notes: vec![s(" first "), s("  "), s("second")],
        subtasks: vec![s("a"), s("b")],
        tags: vec![s("Perf"), s("perf"), s(" ")],
    };
    assert_eq!(saved(run(cmd, &mut tasks, &cfg, NOW)), "added task 5");
    assert_eq!(tasks.len(), 2);
    let t = &tasks[1];
    assert_eq!((t.id, t.title.as_str(), t.created, t.last_updated), (5, "brew", NOW, NOW));
    assert_eq!(
        t.notes,
        vec![
            Note { text: s("first"), created: NOW },
            Note { text: s("second"), created: NOW }
        ]
    );
    assert_eq!(t.subtasks[1], SubTask { title: s("b"), done: false });
    assert_eq!(t.tags, vec!["perf"]);
    assert_eq!(select(&tasks, &cfg, None, None, false, NOW).len(), 2);
}

#[test]
fn done_edit_and_revive_find_their_task() {
    let cfg = Config::default();
    let mut tasks = vec![aged(1, 50 * DAY, false), aged(2, 50 * DAY, false)];
    assert_eq!(saved(run(Command::Done { id: 2 }, &mut tasks, &cfg, NOW)), "marked task 2 done");
    assert!(tasks[1].done && !tasks[0].done);
    assert_eq!(tasks[1].last_updated, NOW - 50 * DAY); // done does not touch
    assert_eq!(select(&tasks, &cfg, None, None, false, NOW).len(), 1);

    let cmd = Command::Edit { id: 1, title: Some(s("new")) };
    assert_eq!(saved(run(cmd, &mut tasks, &cfg, NOW)), "edited task 1");
    assert_eq!((tasks[0].title.as_str(), tasks[0].last_updated), ("new", NOW));
    let cmd = Command::Edit { id: 1, title: None };
    assert_eq!(saved(run(cmd, &mut tasks, &cfg, NOW + 5)), "edited task 1");
    assert_eq!((tasks[0].title.as_str(), tasks[0].last_updated), ("new", NOW + 5));

    assert_eq!(saved(run(Command::Revive { id: 2 }, &mut tasks, &cfg, NOW)), "revived task 2");
    assert_eq!(status_of(&tasks[1], &cfg, NOW), Status::Hot);
}

#[test]
fn unknown_ids_are_refused_and_change_nothing() {
    let cfg = Config::default();
    let mut tasks = vec![aged(1, 10, false)];
    let before = tasks.clone();
    let commands = vec![
        Command::Done { id: 9 },
        Command::Edit { id: 9, title: Some(s("x")) },
        Command::Revive { id: 9 },
        Command::Rm { id: 9 },
        Command::Show { id: 9 },
        Command::Subtask { action: SubtaskCmd::Add { task_id: 9, title: s("x") } },
        Command::Subtask { action: SubtaskCmd::Done { task_id: 9, index: 1 } },
        Command::Subtask { action: SubtaskCmd::Rm { task_id: 9, index: 1 } },
        Command::Tag { action: TagCmd::Add { task_id: 9, tag: s("x") } },
        Command::Tag { action: TagCmd::Rm { task_id: 9, tag: s("x") } },
        Command::Note { action: NoteCmd::Add { task_id: 9, text: s("x") } },
        Command::Note { action: NoteCmd::Rm { task_id: 9, index: 1 } },
    ];
    for cmd in commands {
        assert_eq!(failed(run(cmd, &mut tasks, &cfg, NOW)), "no task with id 9");
        assert_eq!(tasks, before);
    }
}

#[test]
fn rm_deletes_every_task_with_the_id() {
    let cfg = Config::default();
    let mut tasks = vec![aged(1, 0, false), aged(2, 0, false), aged(1, 5, true), aged(3, 0, false)];
    assert_eq!(saved(run(Command::Rm { id: 1 }, &mut tasks, &cfg, NOW)), "removed task 1");
    let ids: Vec<u64> = tasks.iter().map(|t| t.id).collect();
    assert_eq!(ids, vec![2, 3]);
}

#[test]
fn export_and_import_leave_the_tasks_to_the_front_end() {
    let cfg = Config::default();
    let mut tasks = vec![aged(1, 0, false), aged(2, 0, false)];
    let before = tasks.clone();
    match run(Command::Export { path: s("/tmp/o.json") }, &mut tasks, &cfg, NOW) {
        Ok(Outcome::Export { path, message }) => {
            assert_eq!(path, "/tmp/o.json");
            assert_eq!(message, "exported 2 task(s) to /tmp/o.json");
        }
        _ => panic!("no export"),
    }
    match run(Command::Import { path: s("in.json") }, &mut tasks, &cfg, NOW) {
        Ok(Outcome::Import { path }) => assert_eq!(path, "in.json"),
        _ => panic!("no import"),
    }
    assert_eq!(tasks, before);
}

#[test]
fn imported_tasks_get_fresh_ids() {
    let mut tasks = vec![aged(3, 0, false), aged(8, 0, false)];
    let incoming = vec![aged(3, 7, true), aged(3, 9, false)];
    assert!(ids_left(&tasks, incoming.len()));
    assert_eq!(import(&mut tasks, incoming), "imported 2 task(s)");
    let ids: Vec<u64> = tasks.iter().map(|t| t.id).collect();
    assert_eq!(ids, vec![3, 8, 9, 10]);
    assert_eq!((tasks[2].title.as_str(), tasks[2].done), ("t3", true));
    assert_eq!(import(&mut tasks, Vec::new()), "imported 0 task(s)");
    assert_eq!(tasks.len(), 4);
}

#[test]
fn ids_run_out() {
    let mut last = aged(1, 0, false);
    last.id = u64::MAX;
    assert!(!ids_left(&vec![last], 0));
    let mut near = aged(1, 0, false);
    near.id = u64::MAX - 2;
    let tasks = vec![near];
    assert!(ids_left(&tasks, 1));
    assert!(!ids_left(&tasks, 2));
    assert!(ids_left(&Vec::new(), 1000));
}

#[test]
fn subtask_commands_work_by_position() {
    let cfg = Config::default();
    let mut tasks = vec![aged(1, 50 * DAY, false)];
    let add = |title: &str| Command::Subtask {
        action: SubtaskCmd::Add { task_id: 1, title: s(title) },
    };
    assert_eq!(saved(run(add("a"), &mut tasks, &cfg, NOW)), "added subtask to task 1");
    saved(run(add("b"), &mut tasks, &cfg, NOW));
    assert_eq!(tasks[0].last_updated, NOW);
    let toggle = || Command::Subtask { action: SubtaskCmd::Done { task_id: 1, index: 2 } };
    assert_eq!(saved(run(toggle(), &mut tasks, &cfg, NOW)), "toggled subtask 2 on task 1");
    assert!(tasks[0].subtasks[1].done && !tasks[0].subtasks[0].done);
    saved(run(toggle(), &mut tasks, &cfg, NOW));
    assert!(!tasks[0].subtasks[1].done); // twice is back
    let rm = |index: usize| Command::Subtask { action: SubtaskCmd::Rm { task_id: 1, index } };
    assert_eq!(saved(run(rm(1), &mut tasks, &cfg, NOW)), "removed subtask 1 from task 1");
    assert_eq!(tasks[0].subtasks, vec![SubTask { title: s("b"), done: false }]);
    assert_eq!(failed(run(rm(2), &mut tasks, &cfg, NOW)), "no subtask 2 on task 1");
    let bad = Command::Subtask { action: SubtaskCmd::Done { task_id: 1, index: 0 } };
    assert_eq!(failed(run(bad, &mut tasks, &cfg, NOW)), "no subtask 0 on task 1");
}

#[test]
fn tag_commands_report_what_they_did() {
    let cfg = Config::default();
    let mut tasks = vec![aged(1, 50 * DAY, false)];
    let add = |tag: &str| Command::Tag { action: TagCmd::Add { task_id: 1, tag: s(tag) } };
    let rm = |tag: &str| Command::Tag { action: TagCmd::Rm { task_id: 1, tag: s(tag) } };
    assert_eq!(saved(run(add(" Perf"), &mut tasks, &cfg, NOW)), "tagged task 1");
    assert_eq!((tasks[0].tags.clone(), tasks[0].last_updated), (vec![s("perf")], NOW));
    let before = tasks.clone();
    let refusal = "task 1 already has tag or tag is empty";
    assert_eq!(failed(run(add("PERF"), &mut tasks, &cfg, NOW + 9)), refusal);
    assert_eq!(failed(run(add("  "), &mut tasks, &cfg, NOW + 9)), refusal);
    assert_eq!(failed(run(rm("Org"), &mut tasks, &cfg, NOW + 9)), "task 1 has no tag 'Org'");
    assert_eq!(tasks, before);
    assert_eq!(saved(run(rm("PERF"), &mut tasks, &cfg, NOW + 9)), "untagged task 1");
    assert!(tasks[0].tags.is_empty());
}

#[test]
fn note_commands_report_what_they_did() {
    let cfg = Config::default();
    let mut tasks = vec![aged(1, 50 * DAY, false)];
    let add = |text: &str| Command::Note { action: NoteCmd::Add { task_id: 1, text: s(text) } };
    let rm = |index: usize| Command::Note { action: NoteCmd::Rm { task_id: 1, index } };
    assert_eq!(saved(run(add(" why "), &mut tasks, &cfg, NOW)), "noted task 1");
    assert_eq!(tasks[0].notes, vec![Note { text: s("why"), created: NOW }]);
    assert_eq!(failed(run(add(" \n"), &mut tasks, &cfg, NOW)), "note text for task 1 is empty");
    assert_eq!(failed(run(rm(2), &mut tasks, &cfg, NOW)), "no note 2 on task 1");
    assert_eq!(saved(run(rm(1), &mut tasks, &cfg, NOW)), "removed note 1 from task 1");
    assert!(tasks[0].notes.is_empty());
}

#[test]
fn list_prints_lines_or_hands_out_positions() {
    let cfg = Config::default();
    let list = |json: bool, tag: Option<String>| Command::List {
        status: None,
        tag,
        all: true,
        json,
    };
    let mut tasks = vec![aged(1, 50 * DAY, false), aged(2, 0, true)];
    assert_eq!(
        printed(run(list(false, None), &mut tasks, &cfg, NOW)),
        vec!["   2 [x] hot      t2", "   1 [ ] bubbling t1"]
    );
    assert_eq!(printed(run(list(false, Some(s("x"))), &mut tasks, &cfg, NOW)), vec!["(no tasks)"]);
    match run(list(true, None), &mut tasks, &cfg, NOW) {
        Ok(Outcome::Json(views)) => {
            let got: Vec<(usize, &str)> = views.iter().map(|v| (v.at, v.status)).collect();
            assert_eq!(got, vec![(1, "hot"), (0, "bubbling")]);
        }
        _ => panic!("no JSON"),
    }
    match run(list(true, Some(s("x"))), &mut tasks, &cfg, NOW) {
        Ok(Outcome::Json(views)) => assert!(views.is_empty()),
        _ => panic!("no JSON"),
    }
}

#[test]
fn show_prints_what_there_is() {
    let cfg = Config::default();
    let mut t = aged(3, 0, false);
    assert_eq!(show(&t, &cfg, NOW), vec!["#3 [ ] t3", "status: hot", "(no subtasks)"]);
    t.done = true;
    t.add_tag("a");
    t.add_tag("b");
    t.add_note_at("old", NOW - 3 * DAY);
    t.add_note_at("new", NOW);
    t.subtasks.push(SubTask { title: s("x"), done: true });
    t.subtasks.push(SubTask { title: s("y"), done: false });
    let expected = vec![
        "#3 [x] t3",
        "status: hot",
        "tags:  #a #b",
        "notes:",
        "   1. old  (3d ago)",
        "   2. new  (just now)",
        "   1. [x] x",
        "   2. [ ] y",
    ];
    assert_eq!(show(&t, &cfg, NOW), expected);
    let mut tasks = vec![t];
    assert_eq!(printed(run(Command::Show { id: 3 }, &mut tasks, &cfg, NOW)), expected);
}

#[test]
fn config_heading_names_both_paths() {
    assert_eq!(
        config_heading("/c/zym/config.toml", "/d/zym/tasks.json"),
        vec![
            "config_path  = /c/zym/config.toml",
            "storage_path = /d/zym/tasks.json",
            "---"
        ]
    );
}

#[test]
fn config_writes_or_shows() {
    let written = ConfigOutcome::Write(s("wrote /c/config.toml"));
    assert_eq!(config_outcome(false, true, "/c/config.toml"), written);
    assert_eq!(config_outcome(true, true, "/c/config.toml"), written);
    assert_eq!(config_outcome(true, false, "/c/config.toml"), ConfigOutcome::Json);
    assert_eq!(config_outcome(false, false, "/c/config.toml"), ConfigOutcome::Text);
}

#[test]
fn commands_compare_by_value() {
    let a = Cli { command: Some(Command::Done { id: 1 }) };
    assert_eq!(a, Cli { command: Some(Command::Done { id: 1 }) });
    assert_ne!(a, Cli { command: None });
}
