use zym::store::{
    board_file, board_of_file, export, import, load, save, temp_name, Contents, FileText,
    WriteStep,
};

fn s(text: &str) -> String {
    text.to_string()
}

#[test]
fn load_missing_is_empty() {
    assert!(matches!(load(FileText::Missing(s("nope.json"))), Contents::Empty));
}

#[test]
fn import_missing_is_error() {
    match import(FileText::Missing(s("nope.json: not found"))) {
        Contents::Error(e) => assert_eq!(e, "nope.json: not found"),
        _ => panic!("no error"),
    }
}

#[test]
fn empty_file_is_empty_list() {
    assert!(matches!(load(FileText::Text(s("   \n"))), Contents::Empty));
    assert!(matches!(import(FileText::Text(s(""))), Contents::Empty));
}

#[test]
fn what_was_written_is_handed_on_unchanged() {
    for data in ["[]", " [ ] ", "not json", "[{\"id\":1}]\n"] {
        match load(FileText::Text(s(data))) {
            Contents::Json(text) => assert_eq!(text, data),
            _ => panic!("lost"),
        }
        match import(FileText::Text(s(data))) {
            Contents::Json(text) => assert_eq!(text, data),
            _ => panic!("lost"),
        }
    }
}

#[test]
fn unreadable_files_are_errors() {
    for r in [load(FileText::Failed(s("denied"))), import(FileText::Failed(s("denied")))] {
        match r {
            Contents::Error(e) => assert_eq!(e, "denied"),
            _ => panic!("no error"),
        }
    }
}

#[test]
fn writes_go_through_a_temporary_file() {
    let mut seen = vec![save(&Some(s("nested/deep")))];
    while *seen.last().unwrap() != WriteStep::Done {
        let step = *seen.last().unwrap();
        seen.push(step.next(true));
    }
    assert_eq!(
        seen,
        vec![
            WriteStep::MakeDirs,
            WriteStep::Create,
            WriteStep::Write,
            WriteStep::Sync,
            WriteStep::Rename,
            WriteStep::Done
        ]
    );
    assert_eq!(save(&Some(s(""))), WriteStep::Create);
    assert_eq!(export(&None), WriteStep::Create);
    assert_eq!(export(&Some(s("d"))), WriteStep::MakeDirs);
}

#[test]
fn failed_writes_discard_the_temporary_file() {
    for step in [WriteStep::Create, WriteStep::Write, WriteStep::Sync, WriteStep::Rename] {
        assert_eq!(step.next(false), WriteStep::Discard);
    }
    assert_eq!(WriteStep::MakeDirs.next(false), WriteStep::Failed);
    assert_eq!(WriteStep::Discard.next(true), WriteStep::Failed);
    assert_eq!(WriteStep::Discard.next(false), WriteStep::Failed);
    assert_eq!(WriteStep::Failed.next(true), WriteStep::Failed);
    assert_eq!(WriteStep::Done.next(false), WriteStep::Done);
}

#[test]
fn temporary_files_carry_the_process_id() {
    assert_eq!(temp_name(Some(s("work.json")), 4321), "work.json.4321.tmp");
    assert_eq!(temp_name(None, 0), "tasks.json.0.tmp");
}

#[test]
fn boards_and_their_files_correspond() {
    assert_eq!(board_file("work"), "work.json");
    assert_eq!(board_of_file("work.json"), Some(s("work")));
    assert_eq!(board_of_file(&board_file("a.b")), Some(s("a.b")));
    assert_ne!(board_file("a"), board_file("b"));
    assert_eq!(board_of_file(".json"), None);
    assert_eq!(board_of_file("work.json.12.tmp"), None);
    assert_eq!(board_of_file("notes.txt"), None);
}
