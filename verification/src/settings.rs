//! Editing the configuration one field at a time, globally or for one board.

use crate::config;
use crate::config::{BoardOverrides, Config, ConfigModel, OverridesModel, Span};
use crate::text;
use crate::theme;
use vstd::prelude::*;
use vstd::string::*;

verus! {

/// Which config layer an edit targets: the global config, or the current
/// board's overrides.
#[derive(Debug, Clone, Copy, PartialEq, Eq, Structural)]
pub enum Scope {
    Global,
    Board,
}

/// The subset of config editable interactively.
#[derive(Debug, Clone, Copy, PartialEq, Eq, Structural)]
pub enum CfgField {
    HotWindow,
    DormantAfter,
    BubbleAfter,
    TickFps,
    Theme,
}

/// How many fields are editable.
pub const CFG_FIELD_COUNT: usize = 5;

impl CfgField {
    /// Place of the field on the config screen.
    pub open spec fn place(self) -> int {
        match self {
            CfgField::HotWindow => 0,
            CfgField::DormantAfter => 1,
            CfgField::BubbleAfter => 2,
            CfgField::TickFps => 3,
            CfgField::Theme => 4,
        }
    }

    /// The name of the field.
    pub open spec fn label_text(self) -> Seq<char> {
        match self {
            CfgField::HotWindow => "hot_window"@,
            CfgField::DormantAfter => "dormant_after"@,
            CfgField::BubbleAfter => "bubble_after"@,
            CfgField::TickFps => "tick_fps"@,
            CfgField::Theme => "theme"@,
        }
    }

    /// The name of the field.
    pub fn label(self) -> (r: &'static str)
        ensures
            r@ == self.label_text(),
    {
        match self {
            CfgField::HotWindow => "hot_window",
            CfgField::DormantAfter => "dormant_after",
            CfgField::BubbleAfter => "bubble_after",
            CfgField::TickFps => "tick_fps",
            CfgField::Theme => "theme",
        }
    }

    /// The field at a place on the config screen.
    pub open spec fn placed(i: int) -> CfgField {
        if i == 0 {
            CfgField::HotWindow
        } else if i == 1 {
            CfgField::DormantAfter
        } else if i == 2 {
            CfgField::BubbleAfter
        } else if i == 3 {
            CfgField::TickFps
        } else {
            CfgField::Theme
        }
    }

    /// The field at a place on the config screen.
    pub fn at(i: usize) -> (r: CfgField)
        requires
            i < CFG_FIELD_COUNT,
        ensures
            r == CfgField::placed(i as int),
            r.place() == i,
    {
        if i == 0 {
            CfgField::HotWindow
        } else if i == 1 {
            CfgField::DormantAfter
        } else if i == 2 {
            CfgField::BubbleAfter
        } else if i == 3 {
            CfgField::TickFps
        } else {
            CfgField::Theme
        }
    }
}

/// Place of a field on the config screen.
pub fn cfg_field_index(f: CfgField) -> (r: usize)
    ensures
        r == f.place(),
        r < CFG_FIELD_COUNT,
{
    match f {
        CfgField::HotWindow => 0,
        CfgField::DormantAfter => 1,
        CfgField::BubbleAfter => 2,
        CfgField::TickFps => 3,
        CfgField::Theme => 4,
    }
}

/// A field's value as text.
pub open spec fn shown_value(cfg: ConfigModel, f: CfgField) -> Seq<char> {
    match f {
        CfgField::HotWindow => config::human(cfg.hot_window.0),
        CfgField::DormantAfter => config::human(cfg.dormant_after.0),
        CfgField::BubbleAfter => config::human(cfg.bubble_after.0),
        CfgField::TickFps => text::decimal(cfg.tick_fps as nat),
        CfgField::Theme => cfg.theme,
    }
}

/// A field's value as text.
pub fn cfg_value(cfg: &Config, f: CfgField) -> (r: String)
    ensures
        r@ == shown_value(cfg@, f),
{
    match f {
        CfgField::HotWindow => cfg.hot_window.as_human(),
        CfgField::DormantAfter => cfg.dormant_after.as_human(),
        CfgField::BubbleAfter => cfg.bubble_after.as_human(),
        CfgField::TickFps => text::to_decimal(cfg.tick_fps as u64),
        CfgField::Theme => cfg.theme.clone(),
    }
}

/// The theme name that a text is, or why it is none.
pub open spec fn theme_choice(input: Seq<char>) -> Result<Seq<char>, Seq<char>> {
    let name = text::trim(input);
    if theme::is_theme_name(name) {
        Ok(name)
    } else {
        Err(
            "unknown theme '"@ + name + "' (try: "@ + text::joined(theme::theme_names(), ", "@)
                + ")"@,
        )
    }
}

/// Reads a theme name.
pub fn parse_theme(input: &str) -> (r: Result<String, String>)
    ensures
        text::result_text(r) == theme_choice(input@),
{
    let name = text::trimmed(input);
    if theme::known_theme(name.as_str()) {
        Ok(name)
    } else {
        let mut e = "unknown theme '".to_owned();
        e.append(name.as_str());
        e.append("' (try: ");
        e.append(text::join(&theme::list_theme_names(), ", ").as_str());
        e.append(")");
        Err(e)
    }
}

/// The configuration with one global field set from a text.
pub open spec fn globally_edited(cfg: ConfigModel, f: CfgField, input: Seq<char>) -> Result<
    ConfigModel,
    Seq<char>,
> {
    match f {
        CfgField::HotWindow => match config::span_of(input) {
            Ok(secs) => Ok(ConfigModel { hot_window: Span(secs), ..cfg }),
            Err(e) => Err(e),
        },
        CfgField::DormantAfter => match config::span_of(input) {
            Ok(secs) => Ok(ConfigModel { dormant_after: Span(secs), ..cfg }),
            Err(e) => Err(e),
        },
        CfgField::BubbleAfter => match config::span_of(input) {
            Ok(secs) => Ok(ConfigModel { bubble_after: Span(secs), ..cfg }),
            Err(e) => Err(e),
        },
        CfgField::TickFps => match text::number_of(text::trim(input), u32::MAX as nat) {
            Some(n) => Ok(ConfigModel { tick_fps: n as u32, ..cfg }),
            None => Err("bad number '"@ + text::trim(input) + "'"@),
        },
        CfgField::Theme => match theme_choice(input) {
            Ok(name) => Ok(ConfigModel { theme: name, ..cfg }),
            Err(e) => Err(e),
        },
    }
}

/// Overrides with one field set from a text, or cleared when that is blank.
pub open spec fn override_edited(o: OverridesModel, f: CfgField, input: Seq<char>) -> Result<
    OverridesModel,
    Seq<char>,
> {
    let blank = text::trim(input).len() == 0;
    match f {
        CfgField::HotWindow => if blank {
            Ok(OverridesModel { hot_window: None, ..o })
        } else {
            match config::span_of(input) {
                Ok(secs) => Ok(OverridesModel { hot_window: Some(Span(secs)), ..o }),
                Err(e) => Err(e),
            }
        },
        CfgField::DormantAfter => if blank {
            Ok(OverridesModel { dormant_after: None, ..o })
        } else {
            match config::span_of(input) {
                Ok(secs) => Ok(OverridesModel { dormant_after: Some(Span(secs)), ..o }),
                Err(e) => Err(e),
            }
        },
        CfgField::BubbleAfter => if blank {
            Ok(OverridesModel { bubble_after: None, ..o })
        } else {
            match config::span_of(input) {
                Ok(secs) => Ok(OverridesModel { bubble_after: Some(Span(secs)), ..o }),
                Err(e) => Err(e),
            }
        },
        CfgField::TickFps => Err("tick_fps is global-only"@),
        CfgField::Theme => if blank {
            Ok(OverridesModel { theme: None, ..o })
        } else {
            match theme_choice(input) {
                Ok(name) => Ok(OverridesModel { theme: Some(name), ..o }),
                Err(e) => Err(e),
            }
        },
    }
}

/// The overrides of a board, which are none where it has no entry.
pub open spec fn overrides_of(cfg: ConfigModel, board: Seq<char>) -> OverridesModel {
    if cfg.boards.contains_key(board) {
        cfg.boards[board]
    } else {
        config::no_overrides()
    }
}

/// The configuration with a board's overrides set; an entry that overrides
/// nothing is dropped.
pub open spec fn with_overrides(cfg: ConfigModel, board: Seq<char>, o: OverridesModel) -> ConfigModel {
    ConfigModel {
        boards: if o == config::no_overrides() {
            cfg.boards.remove(board)
        } else {
            cfg.boards.insert(board, o)
        },
        ..cfg
    }
}

/// The configuration that an edit asks for, before it is validated.
pub open spec fn edited(
    cfg: ConfigModel,
    board: Seq<char>,
    scope: Scope,
    f: CfgField,
    input: Seq<char>,
) -> Result<ConfigModel, Seq<char>> {
    match scope {
        Scope::Global => globally_edited(cfg, f, input),
        Scope::Board => match override_edited(overrides_of(cfg, board), f, input) {
            Ok(o) => Ok(with_overrides(cfg, board, o)),
            Err(e) => Err(e),
        },
    }
}

/// The outcome of an edit: the configuration asked for if it is valid, otherwise
/// why the text or the configuration was refused.
pub open spec fn applied(
    cfg: ConfigModel,
    board: Seq<char>,
    scope: Scope,
    f: CfgField,
    input: Seq<char>,
) -> Result<ConfigModel, Seq<char>> {
    match edited(cfg, board, scope, f, input) {
        Err(m) => Err(m),
        Ok(next) => if next.valid() {
            Ok(next)
        } else {
            Err(next.refusal())
        },
    }
}

/// A span to set, or none to clear with.
fn span_or_clear(input: &str) -> (r: Result<Option<Span>, String>)
    ensures
        text::trim(input@).len() == 0 ==> r == Ok::<Option<Span>, String>(None),
        text::trim(input@).len() > 0 ==> match (r, config::span_of(input@)) {
            (Ok(v), Ok(secs)) => v == Some(Span(secs)),
            (Err(e), Err(m)) => e@ == m,
            _ => false,
        },
{
    if text::trimmed(input).as_str().is_empty() {
        Ok(None)
    } else {
        match Span::parse(input) {
            Ok(v) => Ok(Some(v)),
            Err(e) => Err(e),
        }
    }
}

/// Sets one field of a board's overrides from a text.
pub fn edit_override(o: BoardOverrides, f: CfgField, input: &str) -> (r: Result<
    BoardOverrides,
    String,
>)
    ensures
        match (r, override_edited(o@, f, input@)) {
            (Ok(n), Ok(m)) => n@ == m,
            (Err(e), Err(m)) => e@ == m,
            _ => false,
        },
{
    let mut entry = o;
    match f {
        CfgField::HotWindow => match span_or_clear(input) {
            Ok(v) => entry.hot_window = v,
            Err(e) => return Err(e),
        },
        CfgField::DormantAfter => match span_or_clear(input) {
            Ok(v) => entry.dormant_after = v,
            Err(e) => return Err(e),
        },
        CfgField::BubbleAfter => match span_or_clear(input) {
            Ok(v) => entry.bubble_after = v,
            Err(e) => return Err(e),
        },
        CfgField::TickFps => return Err("tick_fps is global-only".to_owned()),
        CfgField::Theme => if text::trimmed(input).as_str().is_empty() {
            entry.theme = None;
        } else {
            match parse_theme(input) {
                Ok(name) => entry.theme = Some(name),
                Err(e) => return Err(e),
            }
        },
    }
    Ok(entry)
}

/// Apply one field edit to a copy of the config, parsing + validating. Global
/// scope edits the shared config; board scope edits `board`'s overrides, where
/// empty input clears the override (and drops the entry once it's empty).
/// tick_fps is global-only.
pub fn apply_cfg(cfg: &Config, board: &str, scope: Scope, f: CfgField, input: &str) -> (r: Result<
    Config,
    String,
>)
    ensures
        config::config_result(r) == applied(cfg@, board@, scope, f, input@),
        match edited(cfg@, board@, scope, f, input@) {
            Ok(next) if !next.valid() => r is Err && next.refused_with(r->Err_0@),
            _ => true,
        },
{
    let mut next = cfg.clone();
    match scope {
        Scope::Global => match f {
            CfgField::HotWindow => match Span::parse(input) {
                Ok(v) => next.hot_window = v,
                Err(e) => return Err(e),
            },
            CfgField::DormantAfter => match Span::parse(input) {
                Ok(v) => next.dormant_after = v,
                Err(e) => return Err(e),
            },
            CfgField::BubbleAfter => match Span::parse(input) {
                Ok(v) => next.bubble_after = v,
                Err(e) => return Err(e),
            },
            CfgField::TickFps => {
                let t = text::trimmed(input);
                match text::parse_number(t.as_str(), u32::MAX as u64) {
                    Some(n) => next.tick_fps = n as u32,
                    None => {
                        let mut e = "bad number '".to_owned();
                        e.append(t.as_str());
                        e.append("'");
                        return Err(e);
                    },
                }
            },
            CfgField::Theme => match parse_theme(input) {
                Ok(name) => next.theme = name,
                Err(e) => return Err(e),
            },
        },
        Scope::Board => {
            let entry = match next.boards.get(board) {
                Some(o) => o.clone(),
                None => BoardOverrides::default(),
            };
            match edit_override(entry, f, input) {
                Ok(entry) => if entry.is_empty() {
                    next.boards.remove(board);
                } else {
                    next.boards.insert(board.to_owned(), entry);
                },
                Err(e) => return Err(e),
            }
        },
    }
    match next.validate() {
        Ok(_) => Ok(next),
        Err(e) => {
            proof {
                config::refusal_is_unique(next@, e@);
            }
            Err(e)
        },
    }
}

/// Whether a field is overridden.
pub open spec fn is_overridden(o: OverridesModel, f: CfgField) -> bool {
    match f {
        CfgField::HotWindow => o.hot_window is Some,
        CfgField::DormantAfter => o.dormant_after is Some,
        CfgField::BubbleAfter => o.bubble_after is Some,
        CfgField::Theme => o.theme is Some,
        CfgField::TickFps => false,
    }
}

/// Whether a field is overridden.
pub fn override_is_set(o: &BoardOverrides, f: CfgField) -> (r: bool)
    ensures
        r == is_overridden(o@, f),
{
    match f {
        CfgField::HotWindow => o.hot_window.is_some(),
        CfgField::DormantAfter => o.dormant_after.is_some(),
        CfgField::BubbleAfter => o.bubble_after.is_some(),
        CfgField::Theme => o.theme.is_some(),
        CfgField::TickFps => false,
    }
}

/// A span as text, empty when there is none.
pub open spec fn human_or_empty(s: Option<Span>) -> Seq<char> {
    match s {
        Some(v) => config::human(v.0),
        None => Seq::empty(),
    }
}

/// An override as text, empty when unset.
pub open spec fn raw_override(o: OverridesModel, f: CfgField) -> Seq<char> {
    match f {
        CfgField::HotWindow => human_or_empty(o.hot_window),
        CfgField::DormantAfter => human_or_empty(o.dormant_after),
        CfgField::BubbleAfter => human_or_empty(o.bubble_after),
        CfgField::Theme => config::or_else(o.theme, Seq::empty()),
        CfgField::TickFps => Seq::empty(),
    }
}

/// A span as text, empty when there is none.
fn raw_span(s: Option<Span>) -> (r: String)
    ensures
        r@ == human_or_empty(s),
{
    match s {
        Some(v) => v.as_human(),
        None => String::new(),
    }
}

/// Raw string of an override field (for edit prefill); empty when unset.
pub fn override_raw(o: &BoardOverrides, f: CfgField) -> (r: String)
    ensures
        r@ == raw_override(o@, f),
{
    match f {
        CfgField::HotWindow => raw_span(o.hot_window),
        CfgField::DormantAfter => raw_span(o.dormant_after),
        CfgField::BubbleAfter => raw_span(o.bubble_after),
        CfgField::Theme => match &o.theme {
            Some(t) => t.clone(),
            None => String::new(),
        },
        CfgField::TickFps => String::new(),
    }
}

/// A global edit changes its one field and leaves every override alone.
pub proof fn global_edits_leave_overrides_alone(
    cfg: ConfigModel,
    board: Seq<char>,
    f: CfgField,
    input: Seq<char>,
)
    ensures
        edited(cfg, board, Scope::Global, f, input) matches Ok(next) ==> {
            &&& next.boards == cfg.boards
            &&& next.storage_path == cfg.storage_path
            &&& next.active_board == cfg.active_board
            &&& forall|g: CfgField| g != f ==> #[trigger] shown_value(next, g) == shown_value(cfg, g)
        },
{
}

/// A board edit changes one field of that board's overrides: the global fields
/// and the other boards keep what they had.
pub proof fn board_edits_touch_only_that_override(
    cfg: ConfigModel,
    board: Seq<char>,
    f: CfgField,
    input: Seq<char>,
)
    ensures
        edited(cfg, board, Scope::Board, f, input) matches Ok(next) ==> {
            &&& next == (ConfigModel { boards: next.boards, ..cfg })
            &&& forall|n: Seq<char>|
                n != board ==> #[trigger] overrides_of(next, n) == overrides_of(cfg, n)
            &&& forall|g: CfgField|
                g != f ==> #[trigger] raw_override(overrides_of(next, board), g) == raw_override(
                    overrides_of(cfg, board),
                    g,
                )
        },
{
}

/// Frame rate is never a per-board matter, whatever the text.
pub proof fn tick_fps_is_global_only(cfg: ConfigModel, board: Seq<char>, input: Seq<char>)
    ensures
        edited(cfg, board, Scope::Board, CfgField::TickFps, input) is Err,
{
}

/// Blank input clears the override it is entered for, and a board with nothing
/// left to override loses its entry.
pub proof fn blank_input_clears(cfg: ConfigModel, board: Seq<char>, f: CfgField, input: Seq<char>)
    requires
        text::trim(input).len() == 0,
        f != CfgField::TickFps,
    ensures
        edited(cfg, board, Scope::Board, f, input) matches Ok(next) && {
            &&& !is_overridden(overrides_of(next, board), f)
            &&& (forall|g: CfgField| g != f ==> !#[trigger] is_overridden(overrides_of(cfg, board), g))
                ==> !next.boards.contains_key(board)
        },
{
    let o = overrides_of(cfg, board);
    if forall|g: CfgField| g != f ==> !#[trigger] is_overridden(o, g) {
        assert(f != CfgField::HotWindow ==> !is_overridden(o, CfgField::HotWindow));
        assert(f != CfgField::DormantAfter ==> !is_overridden(o, CfgField::DormantAfter));
        assert(f != CfgField::BubbleAfter ==> !is_overridden(o, CfgField::BubbleAfter));
        assert(f != CfgField::Theme ==> !is_overridden(o, CfgField::Theme));
    }
}

/// Clearing an override undoes setting it, where the field was not overridden
/// before and no board has an entry that overrides nothing.
pub proof fn clearing_undoes_setting(
    cfg: ConfigModel,
    board: Seq<char>,
    f: CfgField,
    input: Seq<char>,
    blank: Seq<char>,
)
    requires
        text::trim(blank).len() == 0,
        !is_overridden(overrides_of(cfg, board), f),
        cfg.boards.contains_key(board) ==> cfg.boards[board] != config::no_overrides(),
    ensures
        edited(cfg, board, Scope::Board, f, input) matches Ok(next) ==> edited(
            next,
            board,
            Scope::Board,
            f,
            blank,
        ) == Ok::<ConfigModel, Seq<char>>(cfg),
{
    match edited(cfg, board, Scope::Board, f, input) {
        Ok(next) => {
            let o = overrides_of(cfg, board);
            match edited(next, board, Scope::Board, f, blank) {
                Ok(back) => {
                    assert(overrides_of(next, board) == override_edited(o, f, input)->Ok_0);
                    assert(override_edited(overrides_of(next, board), f, blank)
                        == Ok::<OverridesModel, Seq<char>>(o));
                    assert(back.boards =~= cfg.boards);
                },
                Err(_) => {},
            }
        },
        Err(_) => {},
    }
}

/// A text without white space at its ends is its own trimmed form.
proof fn trim_keeps(s: Seq<char>)
    requires
        s.len() > 0 ==> !text::is_white(s[0]) && !text::is_white(s.last()),
    ensures
        text::trim(s) == s,
{
}

/// No theme name is empty or has white space at its ends.
proof fn theme_names_are_trimmed(name: Seq<char>)
    requires
        theme::is_theme_name(name),
    ensures
        text::trim(name) == name,
        name.len() > 0,
{
    reveal_strlit("neon_purple");
    reveal_strlit("neon_teal");
    reveal_strlit("catppuccin_mocha");
    reveal_strlit("catppuccin_macchiato");
    reveal_strlit("catppuccin_frappe");
    reveal_strlit("catppuccin_latte");
    let i = choose|i: int|
        0 <= i < theme::THEME_NAMES@.len() && #[trigger] theme::THEME_NAMES@[i]@ == name;
    assert(i == 0 || i == 1 || i == 2 || i == 3 || i == 4 || i == 5);
    trim_keeps(name);
}

/// Submitting a field's own value, as it is shown for editing, asks for the
/// configuration that there already is.
pub proof fn resubmitting_changes_nothing(cfg: ConfigModel, board: Seq<char>, f: CfgField)
    requires
        f == CfgField::Theme ==> theme::is_theme_name(cfg.theme),
    ensures
        edited(cfg, board, Scope::Global, f, shown_value(cfg, f)) == Ok::<ConfigModel, Seq<char>>(
            cfg,
        ),
{
    match f {
        CfgField::HotWindow => config::parse_inverts_as_human(cfg.hot_window.0),
        CfgField::DormantAfter => config::parse_inverts_as_human(cfg.dormant_after.0),
        CfgField::BubbleAfter => config::parse_inverts_as_human(cfg.bubble_after.0),
        CfgField::TickFps => {
            let s = text::decimal(cfg.tick_fps as nat);
            text::decimal_reads_back(cfg.tick_fps as nat);
            assert(text::is_digit(s[0]) && text::is_digit(s[s.len() - 1]));
            trim_keeps(s);
            assert(text::number_of(s, u32::MAX as nat) == Some(cfg.tick_fps as nat));
        },
        CfgField::Theme => theme_names_are_trimmed(cfg.theme),
    }
}

/// Submitting an override as it is shown for editing asks for the configuration
/// that there already is, where no board has an entry that overrides nothing.
pub proof fn resubmitting_an_override_changes_nothing(
    cfg: ConfigModel,
    board: Seq<char>,
    f: CfgField,
)
    requires
        f != CfgField::TickFps,
        f == CfgField::Theme && is_overridden(overrides_of(cfg, board), f)
            ==> theme::is_theme_name(overrides_of(cfg, board).theme->0),
        cfg.boards.contains_key(board) ==> cfg.boards[board] != config::no_overrides(),
    ensures
        edited(cfg, board, Scope::Board, f, raw_override(overrides_of(cfg, board), f)) == Ok::<
            ConfigModel,
            Seq<char>,
        >(cfg),
{
    let o = overrides_of(cfg, board);
    let raw = raw_override(o, f);
    if is_overridden(o, f) {
        match f {
            CfgField::HotWindow => span_is_not_blank((o.hot_window->0).0),
            CfgField::DormantAfter => span_is_not_blank((o.dormant_after->0).0),
            CfgField::BubbleAfter => span_is_not_blank((o.bubble_after->0).0),
            CfgField::Theme => theme_names_are_trimmed(raw),
            CfgField::TickFps => {},
        }
    } else {
        assert(raw =~= Seq::empty());
        assert(text::trim(raw).len() == 0);
    }
    assert(override_edited(o, f, raw) == Ok::<OverridesModel, Seq<char>>(o));
    assert(with_overrides(cfg, board, o).boards =~= cfg.boards);
}

/// A rendered span reads back, and is not blank.
proof fn span_is_not_blank(secs: u64)
    ensures
        config::span_of(config::human(secs)) == Ok::<u64, Seq<char>>(secs),
        text::trim(config::human(secs)).len() > 0,
{
    config::parse_inverts_as_human(secs);
}

/// An edit that is accepted leaves a valid configuration.
pub proof fn accepted_edits_are_valid(
    cfg: ConfigModel,
    board: Seq<char>,
    scope: Scope,
    f: CfgField,
    input: Seq<char>,
)
    ensures
        applied(cfg, board, scope, f, input) matches Ok(next) ==> next.valid(),
{
}

} // verus!
