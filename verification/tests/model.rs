use zym::model::{
    normalize_board_name, normalize_tag, now, tag_from_lowered, time_of, Note, Status, SubTask, Task,
    Thresholds,
};

fn task(id: u64, title: &str) -> Task {
    Task::new(id, title.to_string())
}

fn th(hot: u64, dormant: u64, bubble: u64) -> Thresholds {
    Thresholds { hot_window: hot, dormant_after: dormant, bubble_after: bubble }
}

fn rank(s: Status) -> u8 {
    match s {
        Status::Hot => 0,
        Status::Decaying => 1,
        Status::Dormant => 2,
        Status::Bubbling => 3,
    }
}

#[test]
fn tags_normalize_and_dedup() {
    let mut t = task(1, "x");
    assert!(t.add_tag("  Monitoring "));
    assert!(!t.add_tag("monitoring")); // dup after normalize
    assert!(!t.add_tag("   ")); // empty ignored
    assert_eq!(t.tags, vec!["monitoring"]);
    assert!(t.has_tag("MONITORING"));
    assert!(t.remove_tag("monitoring"));
    assert!(t.tags.is_empty());
}

#[test]
fn notes_append_and_ignore_empty() {
    let mut t = task(1, "x");
    assert!(t.add_note("  consider caching  "));
    assert!(!t.add_note("   ")); // whitespace-only ignored
    assert_eq!(t.notes.len(), 1);
    assert_eq!(t.notes[0].text, "consider caching"); // trimmed
}

#[test]
fn touched_task_is_hot() {
    for hot in [1u64, 2, 500, 1000] {
        let mut t = task(1, "x");
        t.last_updated = 0; // pretend it went stale
        t.touch();
        assert_eq!(t.status(&th(hot, hot + 10, 7), t.last_updated), Status::Hot);
    }
}

#[test]
fn status_monotonic_in_age() {
    let bands = th(100, 200, 50);
    let mut t = task(1, "x");
    t.last_updated = 1_000;
    let mut last = 0;
    for age in 0..400u64 {
        let r = rank(t.status(&bands, 1_000 + age));
        assert!(r >= last);
        last = r;
    }
    assert_eq!(last, 3);
}

#[test]
fn progress_within_bounds() {
    let mut t = task(1, "x");
    t.subtasks = vec![
        SubTask { title: "s".to_string(), done: true },
        SubTask { title: "s".to_string(), done: false },
        SubTask { title: "s".to_string(), done: true },
    ];
    assert_eq!(t.progress(), (2, 3));
    t.subtasks.clear();
    assert_eq!(t.progress(), (0, 0));
}

#[test]
fn bands_are_half_open() {
    let bands = th(100, 200, 50);
    let mut t = task(1, "x");
    t.last_updated = 0;
    assert_eq!(t.status(&bands, 99), Status::Hot);
    assert_eq!(t.status(&bands, 100), Status::Decaying);
    assert_eq!(t.status(&bands, 199), Status::Decaying);
    assert_eq!(t.status(&bands, 200), Status::Dormant);
    assert_eq!(t.status(&bands, 249), Status::Dormant);
    assert_eq!(t.status(&bands, 250), Status::Bubbling);
}

#[test]
fn status_is_total_on_extreme_thresholds() {
    let mut t = task(1, "x");
    t.last_updated = 0;
    // Dormant and bubble spans whose sum is past the range of seconds.
    assert_eq!(t.status(&th(1, 10, u64::MAX), u64::MAX), Status::Dormant);
    assert_eq!(t.status(&th(0, 0, 0), 0), Status::Bubbling);
    // Misordered: the hot window wins.
    assert_eq!(t.status(&th(500, 10, 5), 400), Status::Hot);
}

#[test]
fn age_saturates_when_the_clock_runs_backwards() {
    let mut t = task(1, "x");
    t.last_updated = 1_000;
    assert_eq!(t.age(400), 0);
    assert_eq!(t.age(1_000), 0);
    assert_eq!(t.age(1_060), 60);
}

#[test]
fn new_tasks_are_stamped_with_the_clock() {
    let before = now();
    let t = task(7, "x");
    let after = now();
    assert!(before <= t.created && t.created <= after);
    assert_eq!(t.last_updated, t.created);
    assert!(before > 1_500_000_000); // well past 1970
    assert_eq!((t.id, t.title.as_str(), t.done), (7, "x", false));
    assert!(t.notes.is_empty() && t.subtasks.is_empty() && t.tags.is_empty());
}

#[test]
fn notes_are_stamped_and_do_not_touch() {
    let mut t = Task::new_at(1, "x".to_string(), 50);
    assert!(t.add_note_at("\tfirst\n", 80));
    assert_eq!(t.notes, vec![Note { text: "first".to_string(), created: 80 }]);
    assert_eq!(t.last_updated, 50);
    t.touch_at(90);
    assert_eq!((t.created, t.last_updated), (50, 90));
}

#[test]
fn removing_a_tag_undoes_adding_it_and_leaves_the_others() {
    let mut t = task(1, "x");
    t.add_tag("perf");
    t.add_tag("org");
    let before = t.tags.clone();
    assert!(t.add_tag("New"));
    assert!(t.remove_tag(" NEW "));
    assert_eq!(t.tags, before);
    assert!(!t.remove_tag("absent"));
    assert!(!t.remove_tag("  "));
    assert!(!t.has_tag(""));
    assert!(t.remove_tag("perf"));
    assert_eq!(t.tags, vec!["org"]);
}

#[test]
fn normalized_tags_are_taken_as_they_are() {
    let mut t = task(1, "x");
    assert!(t.add_normalized(Some("a".to_string())));
    assert!(!t.add_normalized(Some("a".to_string())));
    assert!(!t.add_normalized(None));
    assert!(t.has_normalized(&Some("a".to_string())));
    assert!(!t.has_normalized(&None));
    assert!(!t.remove_normalized(None));
    assert!(t.remove_normalized(Some("a".to_string())));
    assert_eq!(tag_from_lowered(String::new()), None);
    assert_eq!(tag_from_lowered("b".to_string()), Some("b".to_string()));
}

#[test]
fn tags_are_lowercased_beyond_ascii() {
    assert_eq!(normalize_tag("  ÉTÉ "), Some("été".to_string()));
    assert_eq!(normalize_tag("ABC-12"), Some("abc-12".to_string()));
    assert_eq!(normalize_tag("\u{3000}x\u{2003}"), Some("x".to_string()));
    assert_eq!(normalize_tag(" \t\n"), None);
}

#[test]
fn normalized_tags_stay_as_they_are() {
    for text in [" Perf-2 ", "a", "\tX y\n", "#Hash", "ÉTÉ", "İ", "ΑΣ", "ß"] {
        let t = normalize_tag(text).unwrap();
        assert_eq!(normalize_tag(&t), Some(t.clone()));
    }
}

#[test]
fn clocks_before_the_epoch_read_as_the_epoch() {
    assert_eq!(time_of(None), 0);
    assert_eq!(time_of(Some(77)), 77);
}

#[test]
fn board_names_are_trimmed_and_hold_no_separator() {
    assert_eq!(normalize_board_name("  work "), Ok("work".to_string()));
    assert_eq!(normalize_board_name("side project"), Ok("side project".to_string()));
    assert_eq!(normalize_board_name("   "), Err("board name is empty".to_string()));
    assert_eq!(
        normalize_board_name(" a/b"),
        Err("board name 'a/b' contains a path separator".to_string())
    );
    assert_eq!(
        normalize_board_name("a\\b"),
        Err("board name 'a\\b' contains a path separator".to_string())
    );
}

#[test]
fn last_id_is_the_greatest() {
    assert_eq!(Task::last_id(&[]), 0);
    assert_eq!(Task::last_id(&[task(4, "a"), task(9, "b"), task(2, "c")]), 9);
    assert_eq!(Task::next_id(&[task(4, "a"), task(9, "b"), task(2, "c")]), 10);
}

#[test]
fn clones_hold_the_same() {
    let mut t = task(3, "x");
    t.add_note("n");
    t.add_tag("t");
    t.subtasks.push(SubTask { title: "s".to_string(), done: true });
    assert_eq!(t.clone(), t);
}
