//! What the files are for, whatever they hold, and what is said of what they hold.

use crate::config;
use crate::config::{ConfigFile, ConfigModel, SaveStep, Span};
use crate::model;
use crate::paths::{Base, LocationModel};
use crate::setting_laws;
use crate::settings;
use crate::settings::{CfgField, Scope};
use crate::store;
use crate::store::{Contents, FileText, WriteStep};
use crate::text;
use crate::text_laws;
use crate::theme;
use std::path::PathBuf;
use vstd::prelude::*;
use vstd::string::*;

verus! {

/// A store file of white space, or an empty one, holds no tasks; any other holds the
/// whole of its text.
pub proof fn blank_files_hold_no_tasks(data: Seq<char>, c: Contents)
    requires
        store::text_holds(data, c),
    ensures
        (forall|k: int| 0 <= k < data.len() ==> text::is_white(#[trigger] data[k])) <==> c is Empty,
        !(c is Empty) ==> (c matches Contents::Json(s) && s@ == data),
{
    let (i, j) = text_laws::trimming_cuts_off_white_space(data);
    if forall|k: int| 0 <= k < data.len() ==> text::is_white(#[trigger] data[k]) {
        if i < j {
            assert(text::is_white(data[i]));
        }
    } else if i == j {
        assert forall|k: int| 0 <= k < data.len() implies text::is_white(#[trigger] data[k]) by {}
    }
}

/// A store file is replaced step by step: the directories, the temporary file, its text,
/// the disk, and only then the target.
pub proof fn replacements_go_step_by_step(parent: Seq<char>)
    ensures
        store::first_step(None) == WriteStep::Create,
        parent.len() == 0 ==> store::first_step(Some(parent)) == WriteStep::Create,
        parent.len() > 0 ==> store::first_step(Some(parent)) == WriteStep::MakeDirs,
        WriteStep::MakeDirs.after(true) == WriteStep::Create,
        WriteStep::Create.after(true) == WriteStep::Write,
        WriteStep::Write.after(true) == WriteStep::Sync,
        WriteStep::Sync.after(true) == WriteStep::Rename,
        WriteStep::Rename.after(true) == WriteStep::Done,
        WriteStep::MakeDirs.after(false) == WriteStep::Failed,
{
}

/// The temporary file is named for the target and the process, and not as any board's
/// file is.
pub proof fn temporary_files_are_told_apart(name: Seq<char>, pid: u32)
    ensures
        store::temp_name_of(Some(name), pid) == name + "."@ + text::decimal(pid as nat) + ".tmp"@,
        store::temp_name_of(None, pid) == "tasks.json."@ + text::decimal(pid as nat) + ".tmp"@,
        !store::is_board_file(store::temp_name_of(Some(name), pid)),
{
    reveal_strlit("tasks.json");
    reveal_strlit(".");
    reveal_strlit("tasks.json.");
    reveal_strlit(".tmp");
    reveal_strlit(".json");
    assert("tasks.json"@ + "."@ =~= "tasks.json."@);
    let f = store::temp_name_of(Some(name), pid);
    if store::is_board_file(f) {
        assert(f.skip(f.len() - 5)[4] == 'p');
        assert(".json"@[4] == 'n');
    }
}

/// A board's file is its name with an ending, and every file with that ending, and
/// something before it, is some board's.
pub proof fn board_files_end_alike(board: Seq<char>, file: Seq<char>)
    ensures
        store::board_file_of(board) == board + ".json"@,
        board.len() > 0 ==> store::is_board_file(board + ".json"@),
        store::is_board_file(file) ==> file.len() > 5 && file == file.take(file.len() - 5)
            + ".json"@,
        !store::is_board_file(".json"@),
{
    reveal_strlit(".json");
    if board.len() > 0 {
        store::board_files_are_recognized(board);
    }
    if store::is_board_file(file) {
        assert(file =~= file.take(file.len() - 5) + file.skip(file.len() - 5));
    }
}

/// The configuration is written once its directory is made, and a failure ends it.
pub proof fn configurations_are_written_step_by_step(step: SaveStep)
    ensures
        SaveStep::MakeDirs.after(true) == SaveStep::Write,
        SaveStep::Write.after(true) == SaveStep::Done,
        step == SaveStep::MakeDirs || step == SaveStep::Write ==> step.after(false)
            == SaveStep::Failed,
        SaveStep::Done.after(true) == SaveStep::Done,
        SaveStep::Done.after(false) == SaveStep::Done,
        SaveStep::Failed.after(true) == SaveStep::Failed,
        SaveStep::Failed.after(false) == SaveStep::Failed,
{
}

/// Without a file the configuration is the default one: two days hot, two weeks to
/// dormant, thirty days more to bubbling, twelve frames a second, the first theme, one
/// board without overrides, and the tasks below the data directory.
pub proof fn missing_configurations_are_the_default(
    path: Seq<char>,
    dir: Option<PathBuf>,
    r: Result<ConfigModel, Seq<char>>,
)
    requires
        config::loading(path, ConfigFile::Missing, dir, r),
    ensures
        r == Ok::<ConfigModel, Seq<char>>(
            ConfigModel {
                hot_window: Span(172_800),
                dormant_after: Span(1_209_600),
                bubble_after: Span(2_592_000),
                storage_path: LocationModel {
                    base: if dir is Some {
                        Base::At(dir->0)
                    } else {
                        Base::Here
                    },
                    below: seq!["zym"@, "tasks.json"@],
                },
                tick_fps: 12,
                theme: "neon_purple"@,
                active_board: "default"@,
                boards: Map::empty(),
            },
        ),
{
}

/// A file that holds a valid configuration is taken as it is, an invalid one is refused,
/// and one that cannot be read or understood is refused with its path and the reason.
pub proof fn configurations_are_taken_or_refused(
    path: Seq<char>,
    file: ConfigFile,
    dir: Option<PathBuf>,
    r: Result<ConfigModel, Seq<char>>,
)
    requires
        config::loading(path, file, dir, r),
    ensures
        file matches ConfigFile::Unreadable(e) ==> r == Err::<ConfigModel, Seq<char>>(
            "read "@ + path + ": "@ + e@,
        ),
        file matches ConfigFile::Malformed(e) ==> r == Err::<ConfigModel, Seq<char>>(
            "parse "@ + path + ": "@ + e@,
        ),
        file matches ConfigFile::Parsed(cfg) ==> cfg@.valid() ==> r == Ok::<
            ConfigModel,
            Seq<char>,
        >(cfg@),
        file matches ConfigFile::Parsed(cfg) ==> !cfg@.valid() ==> r is Err,
{
}

/// An invalid configuration is refused for the first thing wrong with it: the global
/// order, the frames, or the first board, by name, that is at fault.
pub proof fn refusals_name_the_fault(cfg: ConfigModel, e: Seq<char>, board: Seq<char>)
    requires
        cfg.refused_with(e),
    ensures
        cfg.hot_window.0 > cfg.dormant_after.0 ==> e == "hot_window ("@ + config::human(
            cfg.hot_window.0,
        ) + ") must be <= dormant_after ("@ + config::human(cfg.dormant_after.0) + ")"@,
        cfg.hot_window.0 <= cfg.dormant_after.0 && cfg.tick_fps == 0 ==> e
            == "tick_fps must be >= 1"@,
        ({
            &&& cfg.hot_window.0 <= cfg.dormant_after.0
            &&& cfg.tick_fps > 0
            &&& cfg.boards.contains_key(board)
            &&& model::board_name_of(board) is Err
            &&& forall|n: Seq<char>| #[trigger]
                cfg.boards.contains_key(n) && cfg.board_fault(n) is Some ==> !text::text_lt(n, board)
        }) ==> e == model::board_name_of(board)->Err_0,
        ({
            let here = cfg.effective(board);
            &&& cfg.hot_window.0 <= cfg.dormant_after.0
            &&& cfg.tick_fps > 0
            &&& cfg.boards.contains_key(board)
            &&& model::board_name_of(board) is Ok
            &&& here.hot_window.0 > here.dormant_after.0
            &&& forall|n: Seq<char>| #[trigger]
                cfg.boards.contains_key(n) && cfg.board_fault(n) is Some ==> !text::text_lt(n, board)
        }) ==> e == "board '"@ + board + "': hot_window ("@ + config::human(
            cfg.effective(board).hot_window.0,
        ) + ") must be <= dormant_after ("@ + config::human(cfg.effective(board).dormant_after.0)
            + ")"@,
{
    let here = cfg.effective(board);
    if cfg.ordered() && cfg.tick_fps > 0 && cfg.boards.contains_key(board) && (
    model::board_name_of(board) is Err || !here.ordered()) && (forall|n: Seq<char>| #[trigger]
        cfg.boards.contains_key(n) && cfg.board_fault(n) is Some ==> !text::text_lt(n, board)) {
        assert(cfg.board_fault(board) is Some);
        let n = choose|n: Seq<char>| #[trigger]
            cfg.first_at_fault(n) && cfg.board_fault(n) == Some(e);
        assert(text::text_le(n, board));
        assert(!text::text_lt(n, board));
        assert(n == board);
    }
}

/// An edit that does not read as anything is refused with what is wrong with the text, and
/// leaves it to be mended.
pub proof fn unreadable_edits_say_why(
    cfg: ConfigModel,
    board: Seq<char>,
    scope: Scope,
    f: CfgField,
    input: Seq<char>,
)
    requires
        text::trim(input).len() > 0,
    ensures
        ({
            let r = settings::applied(cfg, board, scope, f, input);
            let line = text::trim(input);
            let span = f == CfgField::HotWindow || f == CfgField::DormantAfter || f
                == CfgField::BubbleAfter;
            &&& span && config::span_of(input) is Err ==> r == Err::<ConfigModel, Seq<char>>(
                config::span_of(input)->Err_0,
            )
            &&& f == CfgField::TickFps && scope == Scope::Board ==> r == Err::<
                ConfigModel,
                Seq<char>,
            >("tick_fps is global-only"@)
            &&& f == CfgField::TickFps && scope == Scope::Global && text::number_of(
                line,
                u32::MAX as nat,
            ) is None ==> r == Err::<ConfigModel, Seq<char>>("bad number '"@ + line + "'"@)
            &&& f == CfgField::Theme && !theme::is_theme_name(line) ==> r == Err::<
                ConfigModel,
                Seq<char>,
            >(
                "unknown theme '"@ + line + "' (try: "@ + text::joined(
                    seq![
                        "neon_purple"@,
                        "neon_teal"@,
                        "catppuccin_mocha"@,
                        "catppuccin_macchiato"@,
                        "catppuccin_frappe"@,
                        "catppuccin_latte"@,
                    ],
                    ", "@,
                ) + ")"@,
            )
        }),
{
    let names = theme::theme_names();
    assert(theme::THEME_NAMES@[0]@ == "neon_purple"@);
    assert(theme::THEME_NAMES@[1]@ == "neon_teal"@);
    assert(theme::THEME_NAMES@[2]@ == "catppuccin_mocha"@);
    assert(theme::THEME_NAMES@[3]@ == "catppuccin_macchiato"@);
    assert(theme::THEME_NAMES@[4]@ == "catppuccin_frappe"@);
    assert(theme::THEME_NAMES@[5]@ == "catppuccin_latte"@);
    assert(names =~= seq![
        "neon_purple"@,
        "neon_teal"@,
        "catppuccin_mocha"@,
        "catppuccin_macchiato"@,
        "catppuccin_frappe"@,
        "catppuccin_latte"@,
    ]);
}

/// A text that is no span is refused for its missing unit, for its number, or for the
/// unit that it has; a text that is no board's name, for being empty or for its
/// separator.
pub proof fn unreadable_texts_say_why(d: Seq<char>, unit: Seq<char>, name: Seq<char>)
    requires
        forall|k: int| 0 <= k < d.len() ==> '0' <= #[trigger] d[k] <= '9',
        unit.len() > 0 ==> !('0' <= unit[0] <= '9'),
        text::trim(d + unit) == d + unit,
        text::trim(name) == name,
    ensures
        unit.len() == 0 ==> config::span_of(d + unit) == Err::<u64, Seq<char>>(
            "missing unit in '"@ + d + "' (use s/m/h/d/w)"@,
        ),
        unit.len() > 0 && (d.len() == 0 || text::spelled(d) > u64::MAX) ==> config::span_of(d + unit)
            == Err::<u64, Seq<char>>("bad number in '"@ + (d + unit) + "'"@),
        unit.len() > 0 && d.len() > 0 && text::spelled(d) <= u64::MAX && unit != "s"@ && unit != "m"@
            && unit != "h"@ && unit != "d"@ && unit != "w"@ ==> config::span_of(d + unit) == Err::<
            u64,
            Seq<char>,
        >("unknown unit '"@ + unit + "' in '"@ + (d + unit) + "' (use s/m/h/d/w)"@),
        name.len() == 0 ==> model::board_name_of(name) == Err::<Seq<char>, Seq<char>>(
            "board name is empty"@,
        ),
        (exists|k: int| 0 <= k < name.len() && (name[k] == '/' || name[k] == '\\'))
            ==> model::board_name_of(name) == Err::<Seq<char>, Seq<char>>(
            "board name '"@ + name + "' contains a path separator"@,
        ),
{
    let s = d + unit;
    if unit.len() == 0 {
        assert(s =~= d);
        setting_laws::digits_run_on(d);
        assert(d.skip(d.len() as int).len() == 0);
    } else {
        assert(s[d.len() as int] == unit[0]);
        assert forall|k: int| 0 <= k < d.len() implies text::is_digit(#[trigger] s[k]) by {
            assert(s[k] == d[k]);
        }
        config::digit_run_ends(s, d.len() as int);
        assert(s.take(d.len() as int) =~= d);
        assert(s.skip(d.len() as int) =~= unit);
    }
    if exists|k: int| 0 <= k < name.len() && (name[k] == '/' || name[k] == '\\') {
        let k = choose|k: int| 0 <= k < name.len() && (name[k] == '/' || name[k] == '\\');
        assert(model::is_separator(name[k]));
    }
}

/// A file that is missing is an error where the user named it and an empty list where it
/// is the store; one that could not be read is an error in either case, with the reason.
pub proof fn missing_files_are_told_apart(file: FileText, named: Contents, stored: Contents)
    requires
        store::named_file_holds(file, named),
        store::store_holds(file, stored),
    ensures
        file matches FileText::Missing(e) ==> (named matches Contents::Error(m) && m@ == e@),
        file is Missing ==> stored is Empty,
        file matches FileText::Failed(e) ==> (named matches Contents::Error(m) && m@ == e@),
        file matches FileText::Failed(e) ==> (stored matches Contents::Error(m) && m@ == e@),
        file matches FileText::Text(t) ==> text::trim(t@).len() == 0 ==> named is Empty && stored
            is Empty,
        file matches FileText::Text(t) ==> text::trim(t@).len() > 0 ==> (named matches Contents::Json(
            m,
        ) && m@ == t@),
        file matches FileText::Text(t) ==> text::trim(t@).len() > 0 ==> (stored matches Contents::Json(
            m,
        ) && m@ == t@),
{
}

/// Writing the configuration starts with the directories only where the path names any,
/// and a clock that stands before the epoch reads as the epoch.
pub proof fn writing_starts_with_the_directories(parent: Seq<char>, t: u64)
    ensures
        config::start_of_writing(None) == SaveStep::Write,
        parent.len() == 0 ==> config::start_of_writing(Some(parent)) == SaveStep::Write,
        parent.len() > 0 ==> config::start_of_writing(Some(parent)) == SaveStep::MakeDirs,
        model::read_as_time(Some(t)) == t,
        model::read_as_time(None) == 0,
{
}

/// An edit that reads as something, but leaves the windows out of order or no frames, is
/// refused with just that, and in general with what is wrong with what would come of it.
pub proof fn invalid_edits_say_why(cfg: ConfigModel, board: Seq<char>, input: Seq<char>, n: u64)
    requires
        cfg.hot_window.0 <= cfg.dormant_after.0,
    ensures
        ({
            let g = Scope::Global;
            let hot = settings::applied(cfg, board, g, CfgField::HotWindow, input);
            let dormant = settings::applied(cfg, board, g, CfgField::DormantAfter, input);
            let fps = settings::applied(cfg, board, g, CfgField::TickFps, input);
            let reads = config::span_of(input) == Ok::<u64, Seq<char>>(n);
            let zero = text::number_of(text::trim(input), u32::MAX as nat) == Some(0nat);
            &&& reads && n > cfg.dormant_after.0 ==> hot == Err::<ConfigModel, Seq<char>>(
                "hot_window ("@ + config::human(n) + ") must be <= dormant_after ("@
                    + config::human(cfg.dormant_after.0) + ")"@,
            )
            &&& reads && n < cfg.hot_window.0 ==> dormant == Err::<ConfigModel, Seq<char>>(
                "hot_window ("@ + config::human(cfg.hot_window.0) + ") must be <= dormant_after ("@
                    + config::human(n) + ")"@,
            )
            &&& zero ==> fps == Err::<ConfigModel, Seq<char>>("tick_fps must be >= 1"@)
        }),
{
    let a = ConfigModel { hot_window: Span(n), ..cfg };
    let b = ConfigModel { dormant_after: Span(n), ..cfg };
    let c = ConfigModel { tick_fps: 0, ..cfg };
    if n > cfg.dormant_after.0 {
        config::refusal_is_unique(
            a,
            "hot_window ("@ + config::human(n) + ") must be <= dormant_after ("@ + config::human(
                cfg.dormant_after.0,
            ) + ")"@,
        );
    }
    if n < cfg.hot_window.0 {
        config::refusal_is_unique(
            b,
            "hot_window ("@ + config::human(cfg.hot_window.0) + ") must be <= dormant_after ("@
                + config::human(n) + ")"@,
        );
    }
    config::refusal_is_unique(c, "tick_fps must be >= 1"@);
}

/// The application's files are in its own directory below the platform's, or below the
/// current one where the platform has none.
pub proof fn files_are_below_the_platforms_directory(dir: PathBuf, name: Seq<char>)
    ensures
        config::app_file(Some(dir), name) == (LocationModel {
            base: Base::At(dir),
            below: seq!["zym"@, name],
        }),
        config::app_file(None, name) == (LocationModel {
            base: Base::Here,
            below: seq!["zym"@, name],
        }),
{
}

} // verus!
