use zym::config::{
    config_path, file_in, format_span, load, load_from, load_with, parse_span, save, save_in,
    save_to, BoardOverrides, Config, ConfigFile, SaveStep, Span,
};
use zym::paths::{Base, Location};

use std::path::PathBuf;

fn s(text: &str) -> String {
    text.to_string()
}

fn dir(path: &str) -> Option<PathBuf> {
    Some(PathBuf::from(path))
}

fn at(base: Base, names: &[&str]) -> Location {
    Location { base, below: names.iter().map(|n| n.to_string()).collect() }
}

fn hot(secs: u64) -> BoardOverrides {
    BoardOverrides { hot_window: Some(Span(secs)), ..Default::default() }
}

#[test]
fn span_parse_format_roundtrip() {
    assert_eq!(parse_span("14d").unwrap(), 14 * 86_400);
    assert_eq!(parse_span(" 36h ").unwrap(), 36 * 3600);
    assert_eq!(format_span(14 * 86_400), "2w"); // 14d == 2 weeks, largest exact unit wins
    assert_eq!(format_span(30 * 86_400), "30d"); // not a whole week
    assert_eq!(format_span(36 * 3600), "36h");
    assert_eq!(format_span(90), "90s");
    assert!(parse_span("abc").is_err());
    assert!(parse_span("5").is_err());
    assert!(parse_span("10x").is_err());
}

#[test]
fn missing_file_is_defaults() {
    let cfg = load_from("none.toml", ConfigFile::Missing).unwrap();
    assert_eq!(cfg, Config::default());
}

#[test]
fn validation_rejects_bad_ordering() {
    let mut cfg = Config::default();
    cfg.hot_window = Span::parse("20d").unwrap();
    cfg.dormant_after = Span::parse("14d").unwrap();
    assert!(load_from("config.toml", ConfigFile::Parsed(cfg)).is_err());
}

#[test]
fn effective_overrides_win_and_others_inherit() {
    let mut cfg = Config::default();
    cfg.boards.insert(
        "work".into(),
        BoardOverrides { hot_window: Some(Span(3600)), ..Default::default() },
    );
    let e = cfg.effective("work");
    assert_eq!(e.hot_window, Span(3600));
    assert_eq!(e.dormant_after, cfg.dormant_after); // inherited
    assert_eq!(cfg.effective("nonexistent"), cfg); // no overrides
}

#[test]
fn validation_rejects_board_that_breaks_ordering() {
    let mut cfg = Config::default();
    // global dormant_after is 14d; a 20d hot_window override breaks ordering.
    cfg.boards.insert(s("work"), hot(20 * 86_400));
    assert!(load_from("config.toml", ConfigFile::Parsed(cfg)).is_err());
}

#[test]
fn effective_field_is_override_or_global() {
    for bits in 0..16u32 {
        let mut cfg = Config::default();
        let o = BoardOverrides {
            hot_window: (bits & 1 != 0).then_some(Span(5)),
            dormant_after: (bits & 2 != 0).then_some(Span(6)),
            bubble_after: (bits & 4 != 0).then_some(Span(7)),
            theme: (bits & 8 != 0).then_some(s("abc")),
        };
        cfg.boards.insert(s("b"), o.clone());
        let e = cfg.effective("b");
        assert_eq!(e.hot_window, o.hot_window.unwrap_or(cfg.hot_window));
        assert_eq!(e.dormant_after, o.dormant_after.unwrap_or(cfg.dormant_after));
        assert_eq!(e.bubble_after, o.bubble_after.unwrap_or(cfg.bubble_after));
        assert_eq!(e.theme, o.theme.unwrap_or(cfg.theme.clone()));
        assert_eq!(e.effective("b"), e);
        assert_eq!((e.tick_fps, e.storage_path), (cfg.tick_fps, cfg.storage_path));
    }
}

#[test]
fn spans_say_what_is_wrong() {
    assert_eq!(parse_span(" 5 "), Err(s("missing unit in '5' (use s/m/h/d/w)")));
    assert_eq!(parse_span(""), Err(s("missing unit in '' (use s/m/h/d/w)")));
    assert_eq!(parse_span("abc"), Err(s("bad number in 'abc'")));
    assert_eq!(parse_span("99999999999999999999d"), Err(s("bad number in '99999999999999999999d'")));
    assert_eq!(parse_span("10x"), Err(s("unknown unit 'x' in '10x' (use s/m/h/d/w)")));
    assert_eq!(parse_span("1d12h"), Err(s("unknown unit 'd12h' in '1d12h' (use s/m/h/d/w)")));
    assert_eq!(Span::parse("-1d"), Err(s("bad number in '-1d'")));
}

#[test]
fn spans_cover_every_unit_and_saturate() {
    assert_eq!(parse_span("7s"), Ok(7));
    assert_eq!(parse_span("2m"), Ok(120));
    assert_eq!(parse_span("1w"), Ok(604_800));
    assert_eq!(parse_span("0d"), Ok(0));
    assert_eq!(parse_span("18446744073709551615w"), Ok(u64::MAX));
    assert_eq!(format_span(0), "0s");
    assert_eq!(format_span(60), "1m");
    assert_eq!(format_span(u64::MAX), "18446744073709551615s");
}

#[test]
fn reading_inverts_rendering() {
    for n in [0u64, 1, 59, 60, 61, 3_600, 86_400, 90_000, 604_800, 6_048_000, u64::MAX] {
        assert_eq!(Span::parse(&Span(n).as_human()), Ok(Span(n)));
    }
}

#[test]
fn defaults_are_the_documented_ones() {
    let cfg = Config::with_data_dir(dir("/data"));
    assert_eq!(cfg.hot_window.as_human(), "2d");
    assert_eq!(cfg.dormant_after.as_human(), "2w");
    assert_eq!(cfg.bubble_after.as_human(), "30d");
    assert_eq!(
        cfg.storage_path,
        at(Base::At(PathBuf::from("/data")), &["zym", "tasks.json"])
    );
    assert_eq!(cfg.tick_fps, 12);
    assert_eq!(cfg.theme, "neon_purple");
    assert_eq!(cfg.active_board, "default");
    assert!(cfg.boards.is_empty());
    assert_eq!(cfg.validate(), Ok(()));
    let local = Config::with_data_dir(None).storage_path;
    assert_eq!(local, at(Base::Here, &["zym", "tasks.json"]));
}

#[test]
fn platform_directories_are_used() {
    assert_eq!(Config::default().storage_path, file_in(dirs::data_dir(), "tasks.json"));
    assert_eq!(config_path(), file_in(dirs::config_dir(), "config.toml"));
    assert_eq!(save(), (config_path(), SaveStep::MakeDirs));
    assert_eq!(save_in(dir("/c")), (file_in(dir("/c"), "config.toml"), SaveStep::MakeDirs));
    assert_eq!(save_in(None), (file_in(None, "config.toml"), SaveStep::MakeDirs));
}

#[test]
fn files_are_named_below_their_directory() {
    assert_eq!(file_in(dir("/a/"), "x"), at(Base::At(PathBuf::from("/a/")), &["zym", "x"]));
    assert_eq!(file_in(None, "x"), at(Base::Here, &["zym", "x"]));
    let place = file_in(dir("/a"), "x");
    assert_eq!(place.clone(), place);
}

#[test]
fn defaults_come_from_the_directory_given() {
    let cfg = Config::with_data_dir(dir("/d"));
    assert_eq!(load_with("c", ConfigFile::Missing, dir("/d")), Ok(cfg.clone()));
    assert_eq!(load_with("c", ConfigFile::Missing, None), Ok(Config::with_data_dir(None)));
    assert_eq!(load_with("c", ConfigFile::Parsed(cfg.clone()), None), Ok(cfg));
}

#[test]
fn validation_reports_the_first_fault() {
    let mut cfg = Config::default();
    cfg.hot_window = Span(20 * 86_400);
    cfg.tick_fps = 0;
    assert_eq!(cfg.validate(), Err(s("hot_window (20d) must be <= dormant_after (2w)")));
    cfg.hot_window = Span(86_400);
    assert_eq!(cfg.validate(), Err(s("tick_fps must be >= 1")));
    cfg.tick_fps = 1;
    cfg.boards.insert(s("zeta"), hot(20 * 86_400));
    cfg.boards.insert(s("beta"), hot(21 * 86_400));
    cfg.boards.insert(s("alpha"), hot(60));
    assert_eq!(
        cfg.validate(),
        Err(s("board 'beta': hot_window (3w) must be <= dormant_after (2w)"))
    );
    cfg.boards.remove("beta");
    cfg.boards.insert(s("a/b"), hot(60));
    assert_eq!(cfg.validate(), Err(s("board name 'a/b' contains a path separator")));
}

#[test]
fn equal_windows_are_valid() {
    let mut cfg = Config::default();
    cfg.hot_window = cfg.dormant_after;
    cfg.boards.insert(s("b"), hot(cfg.dormant_after.0));
    assert_eq!(cfg.validate(), Ok(()));
}

#[test]
fn loading_reports_unreadable_and_malformed_files() {
    assert_eq!(
        load_from("c.toml", ConfigFile::Unreadable(s("denied"))),
        Err(s("read c.toml: denied"))
    );
    assert_eq!(
        load_from("c.toml", ConfigFile::Malformed(s("bad key"))),
        Err(s("parse c.toml: bad key"))
    );
    assert_eq!(
        load("/c/zym/config.toml", ConfigFile::Malformed(s("bad key"))),
        Err(s("parse /c/zym/config.toml: bad key"))
    );
    let mut cfg = Config::default();
    cfg.tick_fps = 60;
    assert_eq!(load("c.toml", ConfigFile::Parsed(cfg.clone())), Ok(cfg));
}

#[test]
fn saving_makes_directories_where_there_are_any() {
    assert_eq!(save_to(&Some(s("/a/b"))), SaveStep::MakeDirs);
    assert_eq!(save_to(&Some(s(""))), SaveStep::Write);
    assert_eq!(save_to(&None), SaveStep::Write);
    assert_eq!(SaveStep::MakeDirs.next(true), SaveStep::Write);
    assert_eq!(SaveStep::MakeDirs.next(false), SaveStep::Failed);
    assert_eq!(SaveStep::Write.next(true), SaveStep::Done);
    assert_eq!(SaveStep::Write.next(false), SaveStep::Failed);
}

#[test]
fn overrides_know_whether_they_are_empty() {
    assert!(BoardOverrides::default().is_empty());
    assert!(!hot(1).is_empty());
    let themed = BoardOverrides { theme: Some(s("x")), ..Default::default() };
    assert!(!themed.is_empty());
    assert_eq!(themed.clone(), themed);
}

#[test]
fn boards_stay_sorted_and_unique() {
    let mut cfg = Config::default();
    for name in ["m", "z", "a", "ab", "m"] {
        cfg.boards.insert(s(name), hot(name.len() as u64));
    }
    assert_eq!(cfg.boards.names(), vec!["a", "ab", "m", "z"]);
    cfg.boards.insert(s("m"), hot(99));
    assert_eq!(cfg.boards.get("m"), Some(&hot(99)));
    assert_eq!(cfg.boards.remove("m"), Some(hot(99)));
    assert_eq!(cfg.boards.remove("m"), None);
    assert!(!cfg.boards.contains_key("m") && cfg.boards.contains_key("ab"));
    assert_eq!(cfg.boards.get("nope"), None);
    assert_eq!(cfg.clone(), cfg);
}
