//! What spans, settings and their editing are for, whatever they are given.

use crate::config;
use crate::config::{ConfigModel, OverridesModel, Span};
use crate::model;
use crate::settings;
use crate::settings::{CfgField, Scope};
use crate::text;
use crate::text_laws;
use crate::theme;
use vstd::prelude::*;
use vstd::string::*;

verus! {

/// A number and the letter of a unit, with any white space around them, read as that
/// many seconds, minutes, hours, days or weeks, as far as a count of seconds goes.
/// Without a unit, with another one, or without a number, they read as nothing.
pub proof fn spans_are_numbers_of_units(
    a: Seq<char>,
    d: Seq<char>,
    unit: char,
    b: Seq<char>,
    n: nat,
)
    requires
        forall|k: int| 0 <= k < a.len() ==> text::is_white(#[trigger] a[k]),
        forall|k: int| 0 <= k < b.len() ==> text::is_white(#[trigger] b[k]),
        forall|k: int| 0 <= k < d.len() ==> '0' <= #[trigger] d[k] <= '9',
        d.len() > 0 ==> n == text::spelled(d),
        !text::is_white(unit),
    ensures
        ({
            let s = a + (d + seq![unit]) + b;
            let size: int = if unit == 's' {
                1
            } else if unit == 'm' {
                60
            } else if unit == 'h' {
                3_600
            } else if unit == 'd' {
                86_400
            } else {
                604_800
            };
            let known = unit == 's' || unit == 'm' || unit == 'h' || unit == 'd' || unit == 'w';
            &&& d.len() > 0 && known && n <= u64::MAX ==> config::span_of(s) == Ok::<
                u64,
                Seq<char>,
            >(if n * size <= u64::MAX {
                (n * size) as u64
            } else {
                u64::MAX
            })
            &&& !known ==> config::span_of(s) is Err
            &&& d.len() == 0 ==> config::span_of(s) is Err
            &&& d.len() > 0 && n > u64::MAX && known ==> config::span_of(s) is Err
            &&& config::span_of(a + d + b) is Err
        }),
{
    reveal_strlit("s");
    reveal_strlit("m");
    reveal_strlit("h");
    reveal_strlit("d");
    reveal_strlit("w");
    let m = d + seq![unit];
    if d.len() > 0 {
        assert(m[0] == d[0]);
    }
    assert(m.last() == unit);
    text_laws::trimming_finds_the_middle(a, m, b);
    text_laws::trimming_finds_the_middle(a, d, b);
    if text::is_digit(unit) {
        // All digits: there is no unit at all.
        assert forall|k: int| 0 <= k < m.len() implies text::is_digit(#[trigger] m[k]) by {
            if k < d.len() {
                assert(m[k] == d[k]);
            }
        }
        digits_run_on(m);
        assert(m.skip(m.len() as int).len() == 0);
    } else {
        assert forall|k: int| 0 <= k < d.len() implies text::is_digit(#[trigger] m[k]) by {
            assert(m[k] == d[k]);
        }
        config::digit_run_ends(m, d.len() as int);
        assert(m.take(d.len() as int) =~= d);
        assert(m.skip(d.len() as int) =~= seq![unit]);
        assert("s"@ =~= seq!['s'] && "m"@ =~= seq!['m'] && "h"@ =~= seq!['h'] && "d"@ =~= seq!['d']
            && "w"@ =~= seq!['w']);
        let u = seq![unit];
        assert(u[0] == unit);
        assert("s"@[0] == 's' && "m"@[0] == 'm' && "h"@[0] == 'h' && "d"@[0] == 'd' && "w"@[0]
            == 'w');
    }
    digits_run_on(d);
    assert(d.skip(d.len() as int).len() == 0);
}

/// A text of digits is one run of them.
pub(crate) proof fn digits_run_on(d: Seq<char>)
    requires
        forall|k: int| 0 <= k < d.len() ==> text::is_digit(#[trigger] d[k]),
    ensures
        config::digit_run(d) == d.len(),
    decreases d.len(),
{
    if d.len() > 0 {
        assert forall|k: int| 0 <= k < d.skip(1).len() implies text::is_digit(
            #[trigger] d.skip(1)[k],
        ) by {
            assert(d.skip(1)[k] == d[k + 1]);
        }
        digits_run_on(d.skip(1));
    }
}

/// A span is written as a count of the largest unit that it is a whole number of,
/// and not zero of.
pub proof fn spans_are_written_in_the_largest_unit(n: u64)
    ensures
        n > 0 && n % 604_800 == 0 ==> config::human(n) == text::decimal((n / 604_800) as nat) + "w"@,
        n > 0 && n % 604_800 != 0 && n % 86_400 == 0 ==> config::human(n) == text::decimal(
            (n / 86_400) as nat,
        ) + "d"@,
        n > 0 && n % 86_400 != 0 && n % 3_600 == 0 ==> config::human(n) == text::decimal(
            (n / 3_600) as nat,
        ) + "h"@,
        n > 0 && n % 3_600 != 0 && n % 60 == 0 ==> config::human(n) == text::decimal(
            (n / 60) as nat,
        ) + "m"@,
        n == 0 || n % 60 != 0 ==> config::human(n) == text::decimal(n as nat) + "s"@,
{
    assert(n > 0 && n % 604_800 == 0 ==> n >= 604_800);
    assert(n > 0 && n % 86_400 == 0 ==> n >= 86_400);
    assert(n > 0 && n % 3_600 == 0 ==> n >= 3_600);
    assert(n % 604_800 == 0 ==> n % 86_400 == 0);
    assert(n % 86_400 == 0 ==> n % 3_600 == 0);
    assert(n % 3_600 == 0 ==> n % 60 == 0);
}

/// A global edit that is accepted sets the field it is for to what the text reads as,
/// and nothing else; it is accepted if the text reads as something and what comes of
/// it is valid.
pub proof fn global_edits_set_what_was_typed(
    cfg: ConfigModel,
    board: Seq<char>,
    input: Seq<char>,
    n: u64,
)
    ensures
        ({
            let g = Scope::Global;
            let hot = settings::applied(cfg, board, g, CfgField::HotWindow, input);
            let dormant = settings::applied(cfg, board, g, CfgField::DormantAfter, input);
            let bubble = settings::applied(cfg, board, g, CfgField::BubbleAfter, input);
            let fps = settings::applied(cfg, board, g, CfgField::TickFps, input);
            let named = settings::applied(cfg, board, g, CfgField::Theme, input);
            let reads = config::span_of(input) == Ok::<u64, Seq<char>>(n);
            let counts = text::number_of(text::trim(input), u32::MAX as nat) == Some(n as nat);
            &&& reads && hot is Ok ==> hot->Ok_0 == (ConfigModel { hot_window: Span(n), ..cfg })
            &&& reads ==> (hot is Ok <==> (ConfigModel { hot_window: Span(n), ..cfg }).valid())
            &&& reads && dormant is Ok ==> dormant->Ok_0 == (ConfigModel {
                dormant_after: Span(n),
                ..cfg
            })
            &&& reads ==> (dormant is Ok <==> (ConfigModel {
                dormant_after: Span(n),
                ..cfg
            }).valid())
            &&& reads && bubble is Ok ==> bubble->Ok_0 == (ConfigModel {
                bubble_after: Span(n),
                ..cfg
            })
            &&& reads ==> (bubble is Ok <==> (ConfigModel { bubble_after: Span(n), ..cfg }).valid())
            &&& counts && fps is Ok ==> fps->Ok_0 == (ConfigModel { tick_fps: n as u32, ..cfg })
            &&& counts ==> (fps is Ok <==> (ConfigModel { tick_fps: n as u32, ..cfg }).valid())
            &&& named is Ok ==> named->Ok_0 == (ConfigModel { theme: text::trim(input), ..cfg })
            &&& named is Ok <==> theme::is_theme_name(text::trim(input)) && (ConfigModel {
                theme: text::trim(input),
                ..cfg
            }).valid()
            &&& config::span_of(input) is Err ==> hot is Err && dormant is Err && bubble is Err
            &&& text::number_of(text::trim(input), u32::MAX as nat) is None ==> fps is Err
        }),
{
}

/// The theme names are these six.
pub proof fn theme_names_are_the_six(name: Seq<char>)
    ensures
        theme::is_theme_name(name) <==> name == "neon_purple"@ || name == "neon_teal"@ || name
            == "catppuccin_mocha"@ || name == "catppuccin_macchiato"@ || name
            == "catppuccin_frappe"@ || name == "catppuccin_latte"@,
{
    assert(theme::THEME_NAMES@[0]@ == "neon_purple"@);
    assert(theme::THEME_NAMES@[1]@ == "neon_teal"@);
    assert(theme::THEME_NAMES@[2]@ == "catppuccin_mocha"@);
    assert(theme::THEME_NAMES@[3]@ == "catppuccin_macchiato"@);
    assert(theme::THEME_NAMES@[4]@ == "catppuccin_frappe"@);
    assert(theme::THEME_NAMES@[5]@ == "catppuccin_latte"@);
}

/// A board edit that is accepted sets that board's override for the field to what the
/// text reads as. The board's other overrides, all other boards, and everything global
/// stay as they are.
pub proof fn board_edits_set_what_was_typed(
    cfg: ConfigModel,
    board: Seq<char>,
    input: Seq<char>,
    n: u64,
)
    requires
        text::trim(input).len() > 0,
    ensures
        ({
            let b = Scope::Board;
            let hot = settings::applied(cfg, board, b, CfgField::HotWindow, input);
            let dormant = settings::applied(cfg, board, b, CfgField::DormantAfter, input);
            let bubble = settings::applied(cfg, board, b, CfgField::BubbleAfter, input);
            let named = settings::applied(cfg, board, b, CfgField::Theme, input);
            let was = if cfg.boards.contains_key(board) {
                cfg.boards[board]
            } else {
                OverridesModel {
                    hot_window: None,
                    dormant_after: None,
                    bubble_after: None,
                    theme: None,
                }
            };
            let reads = config::span_of(input) == Ok::<u64, Seq<char>>(n);
            &&& reads && hot is Ok ==> hot->Ok_0 == (ConfigModel {
                boards: cfg.boards.insert(
                    board,
                    OverridesModel { hot_window: Some(Span(n)), ..was },
                ),
                ..cfg
            })
            &&& reads && dormant is Ok ==> dormant->Ok_0 == (ConfigModel {
                boards: cfg.boards.insert(
                    board,
                    OverridesModel { dormant_after: Some(Span(n)), ..was },
                ),
                ..cfg
            })
            &&& reads && bubble is Ok ==> bubble->Ok_0 == (ConfigModel {
                boards: cfg.boards.insert(
                    board,
                    OverridesModel { bubble_after: Some(Span(n)), ..was },
                ),
                ..cfg
            })
            &&& named is Ok ==> theme::is_theme_name(text::trim(input)) && named->Ok_0
                == (ConfigModel {
                boards: cfg.boards.insert(
                    board,
                    OverridesModel { theme: Some(text::trim(input)), ..was },
                ),
                ..cfg
            })
            &&& config::span_of(input) is Err ==> hot is Err && dormant is Err && bubble is Err
            &&& !theme::is_theme_name(text::trim(input)) ==> named is Err
            &&& theme::is_theme_name(text::trim(input)) && (ConfigModel {
                boards: cfg.boards.insert(
                    board,
                    OverridesModel { theme: Some(text::trim(input)), ..was },
                ),
                ..cfg
            }).valid() ==> named is Ok
            &&& reads && (ConfigModel {
                boards: cfg.boards.insert(
                    board,
                    OverridesModel { hot_window: Some(Span(n)), ..was },
                ),
                ..cfg
            }).valid() ==> hot is Ok
            &&& reads && (ConfigModel {
                boards: cfg.boards.insert(
                    board,
                    OverridesModel { dormant_after: Some(Span(n)), ..was },
                ),
                ..cfg
            }).valid() ==> dormant is Ok
            &&& reads && (ConfigModel {
                boards: cfg.boards.insert(
                    board,
                    OverridesModel { bubble_after: Some(Span(n)), ..was },
                ),
                ..cfg
            }).valid() ==> bubble is Ok
        }),
{
}

/// A blank board edit clears the override for the field and keeps the board's other
/// ones; if none is left, the board has no entry any more. It is accepted if what comes
/// of it is valid.
pub proof fn blank_board_edits_clear(
    cfg: ConfigModel,
    board: Seq<char>,
    f: CfgField,
    input: Seq<char>,
)
    requires
        text::trim(input).len() == 0,
        f != CfgField::TickFps,
    ensures
        ({
            let r = settings::applied(cfg, board, Scope::Board, f, input);
            let was = if cfg.boards.contains_key(board) {
                cfg.boards[board]
            } else {
                OverridesModel {
                    hot_window: None,
                    dormant_after: None,
                    bubble_after: None,
                    theme: None,
                }
            };
            let left = OverridesModel {
                hot_window: if f == CfgField::HotWindow {
                    None
                } else {
                    was.hot_window
                },
                dormant_after: if f == CfgField::DormantAfter {
                    None
                } else {
                    was.dormant_after
                },
                bubble_after: if f == CfgField::BubbleAfter {
                    None
                } else {
                    was.bubble_after
                },
                theme: if f == CfgField::Theme {
                    None
                } else {
                    was.theme
                },
            };
            let none = left.hot_window is None && left.dormant_after is None && left.bubble_after
                is None && left.theme is None;
            let next = ConfigModel {
                boards: if none {
                    cfg.boards.remove(board)
                } else {
                    cfg.boards.insert(board, left)
                },
                ..cfg
            };
            &&& r is Ok <==> next.valid()
            &&& r is Ok ==> r->Ok_0 == next
        }),
{
}

/// Each override stands for the field of its own name.
pub proof fn overrides_stand_for_their_fields(o: OverridesModel, i: int)
    ensures
        settings::is_overridden(o, CfgField::HotWindow) == (o.hot_window is Some),
        settings::is_overridden(o, CfgField::DormantAfter) == (o.dormant_after is Some),
        settings::is_overridden(o, CfgField::BubbleAfter) == (o.bubble_after is Some),
        settings::is_overridden(o, CfgField::Theme) == (o.theme is Some),
        !settings::is_overridden(o, CfgField::TickFps),
        CfgField::HotWindow.label_text() == "hot_window"@,
        CfgField::DormantAfter.label_text() == "dormant_after"@,
        CfgField::BubbleAfter.label_text() == "bubble_after"@,
        CfgField::TickFps.label_text() == "tick_fps"@,
        CfgField::Theme.label_text() == "theme"@,
        0 <= i < 5 ==> CfgField::placed(i).place() == i,
{
}

/// A field is shown by its own value, and an override by its own or by nothing.
pub proof fn values_are_shown_for_their_fields(cfg: ConfigModel, o: OverridesModel)
    ensures
        config::span_of(settings::shown_value(cfg, CfgField::HotWindow)) == Ok::<u64, Seq<char>>(
            cfg.hot_window.0,
        ),
        config::span_of(settings::shown_value(cfg, CfgField::DormantAfter)) == Ok::<
            u64,
            Seq<char>,
        >(cfg.dormant_after.0),
        config::span_of(settings::shown_value(cfg, CfgField::BubbleAfter)) == Ok::<
            u64,
            Seq<char>,
        >(cfg.bubble_after.0),
        settings::shown_value(cfg, CfgField::TickFps) == text::decimal(cfg.tick_fps as nat),
        settings::shown_value(cfg, CfgField::Theme) == cfg.theme,
        o.hot_window is Some ==> config::span_of(settings::raw_override(o, CfgField::HotWindow))
            == Ok::<u64, Seq<char>>((o.hot_window->0).0),
        o.dormant_after is Some ==> config::span_of(
            settings::raw_override(o, CfgField::DormantAfter),
        ) == Ok::<u64, Seq<char>>((o.dormant_after->0).0),
        o.bubble_after is Some ==> config::span_of(
            settings::raw_override(o, CfgField::BubbleAfter),
        ) == Ok::<u64, Seq<char>>((o.bubble_after->0).0),
        o.theme is Some ==> settings::raw_override(o, CfgField::Theme) == o.theme->0,
        o.hot_window is None ==> settings::raw_override(o, CfgField::HotWindow).len() == 0,
        o.dormant_after is None ==> settings::raw_override(o, CfgField::DormantAfter).len() == 0,
        o.bubble_after is None ==> settings::raw_override(o, CfgField::BubbleAfter).len() == 0,
        o.theme is None ==> settings::raw_override(o, CfgField::Theme).len() == 0,
        settings::raw_override(o, CfgField::TickFps).len() == 0,
{
    config::parse_inverts_as_human(cfg.hot_window.0);
    config::parse_inverts_as_human(cfg.dormant_after.0);
    config::parse_inverts_as_human(cfg.bubble_after.0);
    if let Some(v) = o.hot_window {
        config::parse_inverts_as_human(v.0);
    }
    if let Some(v) = o.dormant_after {
        config::parse_inverts_as_human(v.0);
    }
    if let Some(v) = o.bubble_after {
        config::parse_inverts_as_human(v.0);
    }
}

/// A configuration is valid if and only if Hot ends no later than Dormant begins,
/// there is at least one frame a second, and every board with an entry has a name that
/// can be one and keeps that order with its overrides.
pub proof fn validity_is_order_and_names(cfg: ConfigModel)
    ensures
        cfg.valid() <==> {
            &&& cfg.hot_window.0 <= cfg.dormant_after.0
            &&& cfg.tick_fps > 0
            &&& forall|n: Seq<char>| #[trigger]
                cfg.boards.contains_key(n) ==> {
                    let o = cfg.boards[n];
                    let hot = if o.hot_window is Some {
                        o.hot_window->0
                    } else {
                        cfg.hot_window
                    };
                    let dormant = if o.dormant_after is Some {
                        o.dormant_after->0
                    } else {
                        cfg.dormant_after
                    };
                    model::board_name_of(n) is Ok && hot.0 <= dormant.0
                }
        },
{
}

/// A board without an entry sees the configuration as it is; one with an entry sees
/// its overrides in place of the global values, and the rest as it is.
pub proof fn boards_see_their_overrides(cfg: ConfigModel, board: Seq<char>)
    ensures
        ({
            let e = cfg.effective(board);
            let o = cfg.boards[board];
            let listed = cfg.boards.contains_key(board);
            &&& !listed ==> e == cfg
            &&& listed && o.hot_window is Some ==> e.hot_window == o.hot_window->0
            &&& listed && o.dormant_after is Some ==> e.dormant_after == o.dormant_after->0
            &&& listed && o.bubble_after is Some ==> e.bubble_after == o.bubble_after->0
            &&& listed && o.theme is Some ==> e.theme == o.theme->0
            &&& o.hot_window is None ==> e.hot_window == cfg.hot_window
            &&& o.dormant_after is None ==> e.dormant_after == cfg.dormant_after
            &&& o.bubble_after is None ==> e.bubble_after == cfg.bubble_after
            &&& o.theme is None ==> e.theme == cfg.theme
            &&& e.thresholds().hot_window == e.hot_window.0
            &&& e.thresholds().dormant_after == e.dormant_after.0
            &&& e.thresholds().bubble_after == e.bubble_after.0
        }),
{
}

} // verus!
