//! Application configuration, merged over built-in defaults. Durations are
//! written as human spans ("2d", "36h") rather than opaque seconds.

use crate::boards::Boards;
use crate::model;
use crate::model::Thresholds;
use crate::paths::{Base, Location, LocationModel};
use crate::text;
use std::path::PathBuf;
use vstd::prelude::*;
use vstd::string::*;

verus! {

/// A duration in whole seconds, written as `<n><unit>`, unit one of s/m/h/d/w.
/// Single unit only.
#[derive(Debug, Clone, Copy, PartialEq, Eq, Structural)]
pub struct Span(pub u64);

/// Optional per-board overrides; every `None` field inherits the global config.
#[derive(Debug, PartialEq, Eq)]
pub struct BoardOverrides {
    pub hot_window: Option<Span>,
    pub dormant_after: Option<Span>,
    pub bubble_after: Option<Span>,
    pub theme: Option<String>,
}

/// What a board's overrides hold.
#[verifier::ext_equal]
pub struct OverridesModel {
    pub hot_window: Option<Span>,
    pub dormant_after: Option<Span>,
    pub bubble_after: Option<Span>,
    pub theme: Option<Seq<char>>,
}

impl View for BoardOverrides {
    type V = OverridesModel;

    open spec fn view(&self) -> OverridesModel {
        OverridesModel {
            hot_window: self.hot_window,
            dormant_after: self.dormant_after,
            bubble_after: self.bubble_after,
            theme: text::opt_text(self.theme),
        }
    }
}

/// Overrides that set nothing.
pub open spec fn no_overrides() -> OverridesModel {
    OverridesModel { hot_window: None, dormant_after: None, bubble_after: None, theme: None }
}

impl Default for BoardOverrides {
    fn default() -> (r: Self)
        ensures
            r@ == no_overrides(),
    {
        BoardOverrides { hot_window: None, dormant_after: None, bubble_after: None, theme: None }
    }
}

impl Clone for BoardOverrides {
    fn clone(&self) -> (r: Self)
        ensures
            r@ == self@,
    {
        BoardOverrides {
            hot_window: self.hot_window,
            dormant_after: self.dormant_after,
            bubble_after: self.bubble_after,
            theme: text::clone_opt(&self.theme),
        }
    }
}

impl BoardOverrides {
    /// Whether nothing is overridden.
    pub fn is_empty(&self) -> (r: bool)
        ensures
            r == (self@ == no_overrides()),
    {
        self.hot_window.is_none() && self.dormant_after.is_none() && self.bubble_after.is_none()
            && self.theme.is_none()
    }
}

/// How many digits `s` starts with.
pub open spec fn digit_run(s: Seq<char>) -> nat
    decreases s.len(),
{
    if s.len() == 0 || !text::is_digit(s[0]) {
        0
    } else {
        1 + digit_run(s.skip(1))
    }
}

/// The seconds in a unit.
pub open spec fn unit_size(unit: Seq<char>) -> Option<u64> {
    if unit == "s"@ {
        Some(1)
    } else if unit == "m"@ {
        Some(60)
    } else if unit == "h"@ {
        Some(3600)
    } else if unit == "d"@ {
        Some(86_400)
    } else if unit == "w"@ {
        Some(604_800)
    } else {
        None
    }
}

/// The seconds that a number of units comes to, capped at what a count can hold.
pub open spec fn capped_product(n: nat, size: u64) -> u64 {
    if n * size <= u64::MAX {
        (n * size) as u64
    } else {
        u64::MAX
    }
}

/// The span that a text denotes, or why it denotes none.
pub open spec fn span_of(s: Seq<char>) -> Result<u64, Seq<char>> {
    let t = text::trim(s);
    let num = t.take(digit_run(t) as int);
    let unit = t.skip(digit_run(t) as int);
    if unit.len() == 0 {
        Err("missing unit in '"@ + t + "' (use s/m/h/d/w)"@)
    } else if num.len() == 0 || text::spelled(num) > u64::MAX {
        Err("bad number in '"@ + t + "'"@)
    } else {
        match unit_size(unit) {
            Some(size) => Ok(capped_product(text::spelled(num), size)),
            None => Err("unknown unit '"@ + unit + "' in '"@ + t + "' (use s/m/h/d/w)"@),
        }
    }
}

/// A number of seconds in the largest unit that divides it.
pub open spec fn human(secs: u64) -> Seq<char> {
    if secs >= 604_800 && secs % 604_800 == 0 {
        text::decimal((secs / 604_800) as nat) + "w"@
    } else if secs >= 86_400 && secs % 86_400 == 0 {
        text::decimal((secs / 86_400) as nat) + "d"@
    } else if secs >= 3600 && secs % 3600 == 0 {
        text::decimal((secs / 3600) as nat) + "h"@
    } else if secs >= 60 && secs % 60 == 0 {
        text::decimal((secs / 60) as nat) + "m"@
    } else {
        text::decimal(secs as nat) + "s"@
    }
}

/// The digits that `s` starts with.
proof fn digit_run_is_digits(s: Seq<char>)
    ensures
        digit_run(s) <= s.len(),
        forall|i: int| 0 <= i < digit_run(s) ==> text::is_digit(#[trigger] s[i]),
        digit_run(s) < s.len() ==> !text::is_digit(s[digit_run(s) as int]),
    decreases s.len(),
{
    if s.len() > 0 && text::is_digit(s[0]) {
        digit_run_is_digits(s.skip(1));
        assert forall|i: int| 0 <= i < digit_run(s) implies text::is_digit(#[trigger] s[i]) by {
            if i > 0 {
                assert(s[i] == s.skip(1)[i - 1]);
            }
        }
    }
}

/// The run of digits ends where the first other character stands.
pub(crate) proof fn digit_run_ends(s: Seq<char>, k: int)
    requires
        0 <= k < s.len(),
        forall|i: int| 0 <= i < k ==> text::is_digit(#[trigger] s[i]),
        !text::is_digit(s[k]),
    ensures
        digit_run(s) == k,
{
    digit_run_is_digits(s);
}

/// A number followed by the one character of a unit reads as that many units.
proof fn number_and_unit_read_back(n: nat, unit: Seq<char>, size: u64)
    requires
        n <= u64::MAX,
        unit.len() == 1,
        unit_size(unit) == Some(size),
        !text::is_white(unit[0]),
        !text::is_digit(unit[0]),
    ensures
        span_of(text::decimal(n) + unit) == Ok::<u64, Seq<char>>(capped_product(n, size)),
{
    let s = text::decimal(n) + unit;
    text::decimal_reads_back(n);
    let k = text::decimal(n).len() as int;
    assert(text::is_digit(s[0])) by {
        assert(s[0] == text::decimal(n)[0]);
    }
    assert(s.last() == unit[0]);
    assert(text::trim(s) == s);
    assert forall|i: int| 0 <= i < k implies text::is_digit(#[trigger] s[i]) by {
        assert(s[i] == text::decimal(n)[i]);
    }
    digit_run_ends(s, k);
    assert(s.take(k) =~= text::decimal(n));
    assert(s.skip(k) =~= unit);
}

/// Reading a rendered span gives the span back, for every span.
pub proof fn parse_inverts_as_human(secs: u64)
    ensures
        span_of(human(secs)) == Ok::<u64, Seq<char>>(secs),
{
    reveal_strlit("s");
    reveal_strlit("m");
    reveal_strlit("h");
    reveal_strlit("d");
    reveal_strlit("w");
    assert("m"@[0] != "s"@[0] && "h"@[0] != "s"@[0] && "d"@[0] != "s"@[0] && "w"@[0] != "s"@[0]);
    assert("h"@[0] != "m"@[0] && "d"@[0] != "m"@[0] && "w"@[0] != "m"@[0]);
    assert("d"@[0] != "h"@[0] && "w"@[0] != "h"@[0] && "w"@[0] != "d"@[0]);
    if secs >= 604_800 && secs % 604_800 == 0 {
        number_and_unit_read_back((secs / 604_800) as nat, "w"@, 604_800);
    } else if secs >= 86_400 && secs % 86_400 == 0 {
        number_and_unit_read_back((secs / 86_400) as nat, "d"@, 86_400);
    } else if secs >= 3600 && secs % 3600 == 0 {
        number_and_unit_read_back((secs / 3600) as nat, "h"@, 3600);
    } else if secs >= 60 && secs % 60 == 0 {
        number_and_unit_read_back((secs / 60) as nat, "m"@, 60);
    } else {
        number_and_unit_read_back(secs as nat, "s"@, 1);
    }
}

/// The view of a parsed span.
pub open spec fn span_result(r: Result<u64, String>) -> Result<u64, Seq<char>> {
    match r {
        Ok(n) => Ok(n),
        Err(e) => Err(e@),
    }
}

/// Parses `<n><unit>` into seconds.
pub fn parse_span(s: &str) -> (r: Result<u64, String>)
    ensures
        span_result(r) == span_of(s@),
{
    let t = text::trimmed(s);
    let v = text::chars_of(t.as_str());
    let mut split: usize = 0;
    while split < v.len() && v[split] >= '0' && v[split] <= '9'
        invariant
            split <= v@.len(),
            forall|i: int| 0 <= i < split ==> text::is_digit(#[trigger] v@[i]),
        decreases v@.len() - split,
    {
        split += 1;
    }
    proof {
        digit_run_is_digits(t@);
        if split < v@.len() {
            digit_run_ends(t@, split as int);
        }
    }
    if split == v.len() {
        let mut e = "missing unit in '".to_owned();
        e.append(t.as_str());
        e.append("' (use s/m/h/d/w)");
        return Err(e);
    }
    assert(v@.subrange(0, split as int) =~= t@.take(split as int));
    let n: u64 = match text::digits_to_u64(&v, 0, split) {
        Some(n) => n,
        None => {
            let mut e = "bad number in '".to_owned();
            e.append(t.as_str());
            e.append("'");
            return Err(e);
        },
    };
    let unit = text::text_of(&v, split, v.len());
    assert(unit@ =~= t@.skip(split as int));
    let size: u64 = if text::same_text(unit.as_str(), "s") {
        1
    } else if text::same_text(unit.as_str(), "m") {
        60
    } else if text::same_text(unit.as_str(), "h") {
        3600
    } else if text::same_text(unit.as_str(), "d") {
        86_400
    } else if text::same_text(unit.as_str(), "w") {
        604_800
    } else {
        let mut e = "unknown unit '".to_owned();
        e.append(unit.as_str());
        e.append("' in '");
        e.append(t.as_str());
        e.append("' (use s/m/h/d/w)");
        return Err(e);
    };
    match n.checked_mul(size) {
        Some(secs) => Ok(secs),
        None => Ok(u64::MAX),
    }
}

/// A count and a unit.
fn counted(n: u64, unit: &str) -> (r: String)
    ensures
        r@ == text::decimal(n as nat) + unit@,
{
    let mut r = text::to_decimal(n);
    r.append(unit);
    r
}

/// Renders seconds in the largest unit that divides them.
pub fn format_span(secs: u64) -> (r: String)
    ensures
        r@ == human(secs),
{
    if secs >= 604_800 && secs % 604_800 == 0 {
        counted(secs / 604_800, "w")
    } else if secs >= 86_400 && secs % 86_400 == 0 {
        counted(secs / 86_400, "d")
    } else if secs >= 3600 && secs % 3600 == 0 {
        counted(secs / 3600, "h")
    } else if secs >= 60 && secs % 60 == 0 {
        counted(secs / 60, "m")
    } else {
        counted(secs, "s")
    }
}

impl Span {
    /// Parse a human span ("2d", "36h"); the inverse of `as_human`.
    pub fn parse(s: &str) -> (r: Result<Span, String>)
        ensures
            match (r, span_of(s@)) {
                (Ok(sp), Ok(secs)) => sp.0 == secs,
                (Err(e), Err(m)) => e@ == m,
                _ => false,
            },
    {
        match parse_span(s) {
            Ok(secs) => Ok(Span(secs)),
            Err(e) => Err(e),
        }
    }

    /// Render as the largest exact human unit ("14d" -> "2w").
    pub fn as_human(&self) -> (r: String)
        ensures
            r@ == human(self.0),
    {
        format_span(self.0)
    }
}

/// The application configuration.
#[derive(Debug, PartialEq, Eq)]
pub struct Config {
    /// Age below which a task is Hot.
    pub hot_window: Span,
    /// Age at which a Decaying task becomes Dormant.
    pub dormant_after: Span,
    /// Extra age beyond `dormant_after` at which a Dormant task starts Bubbling.
    pub bubble_after: Span,
    /// Where the task store lives.
    pub storage_path: Location,
    /// TUI redraw cap (frames/sec).
    pub tick_fps: u32,
    /// Named color theme; unknown names fall back to the default.
    pub theme: String,
    /// The board the CLI/TUI act on.
    pub active_board: String,
    /// Per-board overrides.
    pub boards: Boards,
}

/// What a configuration holds.
#[verifier::ext_equal]
pub struct ConfigModel {
    pub hot_window: Span,
    pub dormant_after: Span,
    pub bubble_after: Span,
    pub storage_path: LocationModel,
    pub tick_fps: u32,
    pub theme: Seq<char>,
    pub active_board: Seq<char>,
    pub boards: Map<Seq<char>, OverridesModel>,
}

impl View for Config {
    type V = ConfigModel;

    open spec fn view(&self) -> ConfigModel {
        ConfigModel {
            hot_window: self.hot_window,
            dormant_after: self.dormant_after,
            bubble_after: self.bubble_after,
            storage_path: self.storage_path@,
            tick_fps: self.tick_fps,
            theme: self.theme@,
            active_board: self.active_board@,
            boards: self.boards@,
        }
    }
}

/// `value`, or `fallback` where there is none.
pub open spec fn or_else<T>(value: Option<T>, fallback: T) -> T {
    match value {
        Some(v) => v,
        None => fallback,
    }
}

impl ConfigModel {
    /// The lifecycle thresholds.
    pub open spec fn thresholds(self) -> Thresholds {
        Thresholds {
            hot_window: self.hot_window.0,
            dormant_after: self.dormant_after.0,
            bubble_after: self.bubble_after.0,
        }
    }

    /// The configuration with the overrides `o` applied.
    pub open spec fn overridden(self, o: OverridesModel) -> ConfigModel {
        ConfigModel {
            hot_window: or_else(o.hot_window, self.hot_window),
            dormant_after: or_else(o.dormant_after, self.dormant_after),
            bubble_after: or_else(o.bubble_after, self.bubble_after),
            theme: or_else(o.theme, self.theme),
            ..self
        }
    }

    /// The configuration as `board` sees it.
    pub open spec fn effective(self, board: Seq<char>) -> ConfigModel {
        if self.boards.contains_key(board) {
            self.overridden(self.boards[board])
        } else {
            self
        }
    }

    /// Whether Hot ends no later than Dormant begins.
    pub open spec fn ordered(self) -> bool {
        self.hot_window.0 <= self.dormant_after.0
    }

    /// What is wrong with a board's entry.
    pub open spec fn board_fault(self, board: Seq<char>) -> Option<Seq<char>> {
        let e = self.effective(board);
        match model::board_name_of(board) {
            Err(m) => Some(m),
            Ok(_) => if e.ordered() {
                None
            } else {
                Some(
                    "board '"@ + board + "': hot_window ("@ + human(e.hot_window.0)
                        + ") must be <= dormant_after ("@ + human(e.dormant_after.0) + ")"@,
                )
            },
        }
    }

    /// Whether the configuration keeps the order that the lifecycle assumes,
    /// globally and for every board.
    pub open spec fn valid(self) -> bool {
        &&& self.ordered()
        &&& self.tick_fps >= 1
        &&& forall|n: Seq<char>| #[trigger] self.boards.contains_key(n) ==> self.board_fault(n) is None
    }

    /// Whether `name` is, in dictionary order, the first board at fault.
    pub open spec fn first_at_fault(self, name: Seq<char>) -> bool {
        &&& self.boards.contains_key(name)
        &&& self.board_fault(name) is Some
        &&& forall|n: Seq<char>| #[trigger]
            self.boards.contains_key(n) && self.board_fault(n) is Some ==> text::text_le(name, n)
    }

    /// Whether `e` is what an invalid configuration is refused with.
    pub open spec fn refused_with(self, e: Seq<char>) -> bool {
        if !self.ordered() {
            e == "hot_window ("@ + human(self.hot_window.0) + ") must be <= dormant_after ("@ + human(
                self.dormant_after.0,
            ) + ")"@
        } else if self.tick_fps == 0 {
            e == "tick_fps must be >= 1"@
        } else {
            exists|n: Seq<char>| #[trigger] self.first_at_fault(n) && self.board_fault(n) == Some(e)
        }
    }
}

impl ConfigModel {
    /// What an invalid configuration is refused with.
    pub open spec fn refusal(self) -> Seq<char> {
        choose|e: Seq<char>| self.refused_with(e)
    }
}

/// An invalid configuration is refused with one message only.
pub proof fn refusal_is_unique(cfg: ConfigModel, e: Seq<char>)
    requires
        cfg.refused_with(e),
    ensures
        cfg.refusal() == e,
{
    let f = cfg.refusal();
    if cfg.ordered() && cfg.tick_fps != 0 {
        let a = choose|n: Seq<char>| #[trigger]
            cfg.first_at_fault(n) && cfg.board_fault(n) == Some(e);
        let b = choose|n: Seq<char>| #[trigger]
            cfg.first_at_fault(n) && cfg.board_fault(n) == Some(f);
        assert(text::text_le(a, b) && text::text_le(b, a));
        text::text_order_total(a, b);
    }
}

/// The outcome that `validate` has: nothing on a valid configuration, the message
/// of the first fault on any other.
pub open spec fn validation(cfg: ConfigModel, r: Result<(), String>) -> bool {
    match r {
        Ok(_) => cfg.valid(),
        Err(e) => !cfg.valid() && cfg.refused_with(e@),
    }
}

/// A message about two windows out of order, which `lead` begins.
fn order_message(lead: String, hot: Span, dormant: Span) -> (r: String)
    ensures
        r@ == lead@ + human(hot.0) + ") must be <= dormant_after ("@ + human(dormant.0) + ")"@,
{
    let mut m = lead;
    m.append(format_span(hot.0).as_str());
    m.append(") must be <= dormant_after (");
    m.append(format_span(dormant.0).as_str());
    m.append(")");
    m
}

impl Clone for Config {
    fn clone(&self) -> (r: Self)
        ensures
            r@ == self@,
    {
        Config {
            hot_window: self.hot_window,
            dormant_after: self.dormant_after,
            bubble_after: self.bubble_after,
            storage_path: self.storage_path.clone(),
            tick_fps: self.tick_fps,
            theme: self.theme.clone(),
            active_board: self.active_board.clone(),
            boards: self.boards.clone(),
        }
    }
}

impl Config {
    /// The lifecycle thresholds.
    pub fn thresholds(&self) -> (r: Thresholds)
        ensures
            r == self@.thresholds(),
    {
        Thresholds {
            hot_window: self.hot_window.0,
            dormant_after: self.dormant_after.0,
            bubble_after: self.bubble_after.0,
        }
    }

    /// A copy of this config with `board`'s overrides applied. Unknown board
    /// (or no overrides) yields an unchanged clone.
    pub fn effective(&self, board: &str) -> (r: Config)
        ensures
            r@ == self@.effective(board@),
    {
        let mut cfg = self.clone();
        if let Some(o) = self.boards.get(board) {
            if let Some(v) = o.hot_window {
                cfg.hot_window = v;
            }
            if let Some(v) = o.dormant_after {
                cfg.dormant_after = v;
            }
            if let Some(v) = o.bubble_after {
                cfg.bubble_after = v;
            }
            if let Some(v) = &o.theme {
                cfg.theme = v.clone();
            }
        }
        cfg
    }

    /// Enforce the ordering the lifecycle math assumes for monotonic behaviour,
    /// globally and for every board's effective thresholds.
    pub fn validate(&self) -> (r: Result<(), String>)
        ensures
            validation(self@, r),
    {
        if self.hot_window.0 > self.dormant_after.0 {
            return Err(
                order_message("hot_window (".to_owned(), self.hot_window, self.dormant_after),
            );
        }
        if self.tick_fps == 0 {
            return Err("tick_fps must be >= 1".to_owned());
        }
        let names = self.boards.names();
        let ghost all = text::texts(names@);
        let ghost cfg = self@;
        let mut i: usize = 0;
        while i < names.len()
            invariant
                i <= names@.len(),
                cfg == self@,
                cfg.ordered(),
                cfg.tick_fps >= 1,
                all == text::texts(names@),
                forall|n: Seq<char>| cfg.boards.contains_key(n) <==> #[trigger] all.contains(n),
                forall|a: int, b: int|
                    0 <= a < b < all.len() ==> text::text_lt(#[trigger] all[a], #[trigger] all[b]),
                forall|j: int| 0 <= j < i ==> cfg.board_fault(#[trigger] all[j]) is None,
            decreases names@.len() - i,
        {
            let name = &names[i];
            proof {
                assert(all[i as int] == name@);
                assert(all.contains(name@));
                if cfg.board_fault(name@) is Some {
                    assert forall|n: Seq<char>| #[trigger]
                        cfg.boards.contains_key(n) && cfg.board_fault(n) is Some implies text::text_le(
                        name@,
                        n,
                    ) by {
                        assert(all.contains(n));
                        let j = choose|j: int| 0 <= j < all.len() && all[j] == n;
                        assert(cfg.board_fault(all[j]) is Some);
                    }
                    assert(cfg.first_at_fault(name@));
                }
            }
            match model::normalize_board_name(name.as_str()) {
                Err(e) => {
                    assert(cfg.board_fault(name@) == Some(e@));
                    return Err(e);
                },
                Ok(_) => {},
            }
            let e = self.effective(name.as_str());
            if e.hot_window.0 > e.dormant_after.0 {
                let mut lead = "board '".to_owned();
                lead.append(name.as_str());
                lead.append("': hot_window (");
                let m = order_message(lead, e.hot_window, e.dormant_after);
                assert(cfg.board_fault(name@) == Some(m@));
                return Err(m);
            }
            i += 1;
        }
        assert forall|n: Seq<char>| #[trigger] cfg.boards.contains_key(n) implies cfg.board_fault(n) is None by {
            assert(all.contains(n));
            let j = choose|j: int| 0 <= j < all.len() && all[j] == n;
            assert(cfg.board_fault(all[j]) is None);
        }
        Ok(())
    }
}

/// The application's file `name`, in a directory of the platform, or in the current
/// directory where the platform has none.
pub open spec fn app_file(dir: Option<PathBuf>, name: Seq<char>) -> LocationModel {
    LocationModel {
        base: match dir {
            Some(d) => Base::At(d),
            None => Base::Here,
        },
        below: seq!["zym"@, name],
    }
}

/// The built-in defaults, given the platform's data directory.
pub open spec fn default_config(data_dir: Option<PathBuf>) -> ConfigModel {
    ConfigModel {
        hot_window: Span(172_800),
        dormant_after: Span(1_209_600),
        bubble_after: Span(2_592_000),
        storage_path: app_file(data_dir, "tasks.json"@),
        tick_fps: 12,
        theme: "neon_purple"@,
        active_board: "default"@,
        boards: Map::empty(),
    }
}

/// `dirs::data_dir` returns the user's data directory as the environment sets
/// it, if there is one. Nothing is known of it.
#[verifier::external_body]
fn data_dir() -> (r: Option<PathBuf>) {
    dirs::data_dir()
}

/// `dirs::config_dir` returns the user's configuration directory as the
/// environment sets it, if there is one. Nothing is known of it.
#[verifier::external_body]
fn config_dir() -> (r: Option<PathBuf>) {
    dirs::config_dir()
}

/// The application's file `name`, given a directory of the platform.
pub fn file_in(dir: Option<PathBuf>, name: &str) -> (r: Location)
    ensures
        r@ == app_file(dir, name@),
{
    let mut below: Vec<String> = Vec::new();
    below.push("zym".to_owned());
    below.push(name.to_owned());
    let base = match dir {
        Some(d) => Base::At(d),
        None => Base::Here,
    };
    let r = Location { base, below };
    assert(r@ =~= app_file(dir, name@));
    r
}

/// `~/.config/zym/config.toml` (platform-appropriate).
pub fn config_path() -> (r: Location)
    ensures
        exists|dir: Option<PathBuf>| r@ == #[trigger] app_file(dir, "config.toml"@),
{
    file_in(config_dir(), "config.toml")
}

impl Config {
    /// The built-in defaults, storing tasks below the given data directory.
    pub fn with_data_dir(dir: Option<PathBuf>) -> (r: Config)
        ensures
            r@ == default_config(dir),
    {
        Config {
            hot_window: Span(172_800),
            dormant_after: Span(1_209_600),
            bubble_after: Span(2_592_000),
            storage_path: file_in(dir, "tasks.json"),
            tick_fps: 12,
            theme: "neon_purple".to_owned(),
            active_board: "default".to_owned(),
            boards: Boards::new(),
        }
    }
}

impl Default for Config {
    fn default() -> (r: Self)
        ensures
            exists|dir: Option<PathBuf>| r@ == #[trigger] default_config(dir),
    {
        Config::with_data_dir(data_dir())
    }
}

/// What a configuration, or the refusal of one, holds.
pub open spec fn config_result(r: Result<Config, String>) -> Result<ConfigModel, Seq<char>> {
    match r {
        Ok(c) => Ok(c@),
        Err(e) => Err(e@),
    }
}

/// What reading and decoding a configuration file came to.
pub enum ConfigFile {
    /// There is no such file.
    Missing,
    /// It could not be read, for the given reason.
    Unreadable(String),
    /// It does not hold a configuration, for the given reason.
    Malformed(String),
    /// It holds this one, its missing fields filled from the defaults.
    Parsed(Config),
}

/// What loading comes to: all defaults without a file, the file's own configuration
/// if that is valid, and otherwise what is wrong. `path` only names the file; `dir`
/// is the data directory, for the defaults.
pub open spec fn loading(
    path: Seq<char>,
    file: ConfigFile,
    dir: Option<PathBuf>,
    r: Result<ConfigModel, Seq<char>>,
) -> bool {
    match file {
        ConfigFile::Missing => r == Ok::<ConfigModel, Seq<char>>(default_config(dir)),
        ConfigFile::Unreadable(e) => r == Err::<ConfigModel, Seq<char>>(
            "read "@ + path + ": "@ + e@,
        ),
        ConfigFile::Malformed(e) => r == Err::<ConfigModel, Seq<char>>(
            "parse "@ + path + ": "@ + e@,
        ),
        ConfigFile::Parsed(cfg) => match r {
            Ok(c) => c == cfg@ && cfg@.valid(),
            Err(e) => !cfg@.valid() && cfg@.refused_with(e),
        },
    }
}

/// Load config from what was read at `config_path`; `path` is how that is displayed.
pub fn load(path: &str, file: ConfigFile) -> (r: Result<Config, String>)
    ensures
        exists|dir: Option<PathBuf>| #[trigger] loading(path@, file, dir, config_result(r)),
{
    load_from(path, file)
}

/// Load config, merging file over defaults. Missing file: all defaults. `path`
/// only names the file in messages.
pub fn load_from(path: &str, file: ConfigFile) -> (r: Result<Config, String>)
    ensures
        exists|dir: Option<PathBuf>| #[trigger] loading(path@, file, dir, config_result(r)),
{
    load_with(path, file, data_dir())
}

/// Load config, given the data directory for the defaults.
pub fn load_with(path: &str, file: ConfigFile, dir: Option<PathBuf>) -> (r: Result<
    Config,
    String,
>)
    ensures
        loading(path@, file, dir, config_result(r)),
{
    let cfg = match file {
        ConfigFile::Missing => Config::with_data_dir(dir),
        ConfigFile::Unreadable(e) => {
            return Err(file_message("read ", path, e.as_str()));
        },
        ConfigFile::Malformed(e) => {
            return Err(file_message("parse ", path, e.as_str()));
        },
        ConfigFile::Parsed(cfg) => cfg,
    };
    proof {
        if file is Missing {
            defaults_are_valid(dir);
        }
    }
    match cfg.validate() {
        Ok(_) => Ok(cfg),
        Err(e) => Err(e),
    }
}

/// A step in writing the configuration.
#[derive(Debug, Clone, Copy, PartialEq, Eq, Structural)]
pub enum SaveStep {
    /// Create the directories above the file.
    MakeDirs,
    /// Write the file.
    Write,
    /// It is written.
    Done,
    /// It is not.
    Failed,
}

impl SaveStep {
    /// The step after this one.
    pub open spec fn after(self, ok: bool) -> SaveStep {
        match (self, ok) {
            (SaveStep::MakeDirs, true) => SaveStep::Write,
            (SaveStep::Write, true) => SaveStep::Done,
            (SaveStep::Done, _) => SaveStep::Done,
            _ => SaveStep::Failed,
        }
    }

    /// The step to take once this one succeeded or failed.
    pub fn next(self, ok: bool) -> (r: SaveStep)
        ensures
            r == self.after(ok),
    {
        match (self, ok) {
            (SaveStep::MakeDirs, true) => SaveStep::Write,
            (SaveStep::Write, true) => SaveStep::Done,
            (SaveStep::Done, _) => SaveStep::Done,
            _ => SaveStep::Failed,
        }
    }
}

/// Where writing a file begins: directories are made only where the path names any.
pub open spec fn start_of_writing(parent: Option<Seq<char>>) -> SaveStep {
    if parent matches Some(p) && p.len() > 0 {
        SaveStep::MakeDirs
    } else {
        SaveStep::Write
    }
}

/// Where writing a file begins, given the directory part of its path: directories
/// are made only where the path names any.
pub fn save_to(parent: &Option<String>) -> (r: SaveStep)
    ensures
        r == start_of_writing(text::opt_text(*parent)),
{
    match parent {
        Some(p) => if p.as_str().is_empty() {
            SaveStep::Write
        } else {
            SaveStep::MakeDirs
        },
        None => SaveStep::Write,
    }
}

/// Where the configuration is written, and where that begins: its directory may
/// have to be made.
pub fn save() -> (r: (Location, SaveStep))
    ensures
        exists|dir: Option<PathBuf>| r.0@ == #[trigger] app_file(dir, "config.toml"@),
        r.1 == SaveStep::MakeDirs,
{
    save_in(config_dir())
}

/// Where the configuration is written, and where that begins, given the
/// configuration directory.
pub fn save_in(dir: Option<PathBuf>) -> (r: (Location, SaveStep))
    ensures
        r.0@ == app_file(dir, "config.toml"@),
        r.1 == SaveStep::MakeDirs,
{
    (file_in(dir, "config.toml"), SaveStep::MakeDirs)
}

/// What was done to a file, and what went wrong.
fn file_message(verb: &str, path: &str, reason: &str) -> (r: String)
    ensures
        r@ == verb@ + path@ + ": "@ + reason@,
{
    let mut m = verb.to_owned();
    m.append(path);
    m.append(": ");
    m.append(reason);
    m
}

/// The defaults pass validation.
pub proof fn defaults_are_valid(dir: Option<PathBuf>)
    ensures
        default_config(dir).valid(),
{
}

/// Each field of a board's effective configuration is the override where there is
/// one and the global value otherwise; what boards cannot override is global.
pub proof fn effective_field_is_override_or_global(cfg: ConfigModel, board: Seq<char>)
    ensures
        ({
            let o = or_else(
                if cfg.boards.contains_key(board) {
                    Some(cfg.boards[board])
                } else {
                    None
                },
                no_overrides(),
            );
            let e = cfg.effective(board);
            &&& e.hot_window == or_else(o.hot_window, cfg.hot_window)
            &&& e.dormant_after == or_else(o.dormant_after, cfg.dormant_after)
            &&& e.bubble_after == or_else(o.bubble_after, cfg.bubble_after)
            &&& e.theme == or_else(o.theme, cfg.theme)
            &&& e.storage_path == cfg.storage_path
            &&& e.tick_fps == cfg.tick_fps
            &&& e.active_board == cfg.active_board
            &&& e.boards == cfg.boards
        }),
{
}

/// Applying a board's overrides twice is applying them once.
pub proof fn effective_is_idempotent(cfg: ConfigModel, board: Seq<char>)
    ensures
        cfg.effective(board).effective(board) == cfg.effective(board),
{
}

/// A valid configuration hands out ordered thresholds: globally, and to every
/// board, listed or not.
pub proof fn valid_configs_are_ordered_everywhere(cfg: ConfigModel, board: Seq<char>)
    requires
        cfg.valid(),
    ensures
        cfg.thresholds().hot_window <= cfg.thresholds().dormant_after,
        cfg.effective(board).thresholds().hot_window <= cfg.effective(
            board,
        ).thresholds().dormant_after,
{
    if cfg.boards.contains_key(board) {
        assert(cfg.board_fault(board) is None);
    }
}

} // verus!
