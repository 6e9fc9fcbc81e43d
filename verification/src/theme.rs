//! Named color themes, the banner, and the pace of the animations.

use crate::text;
use vstd::prelude::*;

verus! {

/// A color by its red, green and blue parts.
#[derive(Debug, Clone, Copy, PartialEq, Eq, Structural)]
pub struct Rgb(pub u8, pub u8, pub u8);

/// All theme-able colors in one place. Rendering reads only from a `Theme`, so a
/// new palette is a new table and a name in `Theme::named`.
#[derive(Debug, Clone, Copy, PartialEq, Eq, Structural)]
pub struct Theme {
    pub accent: Rgb,
    pub hot: Rgb,
    pub bubble: Rgb,
    pub decay_fresh: Rgb,
    pub decay_stale: Rgb,
    pub dormant: Rgb,
    pub subtask: Rgb,
    pub note: Rgb,
    pub tag: Rgb,
    pub banner_top: Rgb,
    pub banner_bottom: Rgb,
}

/// The names that themes are chosen by.
pub const THEME_NAMES: [&'static str; 6] = [
    "neon_purple",
    "neon_teal",
    "catppuccin_mocha",
    "catppuccin_macchiato",
    "catppuccin_frappe",
    "catppuccin_latte",
];

/// The palettes hold a theme's colors in the order of its fields.
///
/// Default: loud purple-forward neon-punk.
pub const NEON_PURPLE: [(u8, u8, u8); 11] = [
    (187, 92, 255),
    (255, 45, 149),
    (150, 120, 255),
    (200, 170, 235),
    (110, 95, 135),
    (90, 80, 110),
    (160, 150, 190),
    (150, 190, 150),
    (200, 140, 255),
    (255, 60, 200),
    (120, 90, 255),
];

/// Teal neon.
pub const NEON_TEAL: [(u8, u8, u8); 11] = [
    (0, 255, 213),
    (255, 60, 172),
    (90, 230, 255),
    (150, 200, 210),
    (95, 95, 120),
    (80, 80, 105),
    (140, 150, 170),
    (150, 170, 140),
    (180, 140, 255),
    (0, 255, 213),
    (90, 230, 255),
];

/// Catppuccin Mocha (the flagship dark flavor): mauve accent, red for hot, blue for
/// bubbling, green notes, lavender tags.
pub const CATPPUCCIN_MOCHA: [(u8, u8, u8); 11] = [
    (203, 166, 247),
    (243, 139, 168),
    (137, 180, 250),
    (205, 214, 244),
    (108, 112, 134),
    (88, 91, 112),
    (166, 173, 200),
    (166, 227, 161),
    (180, 190, 254),
    (245, 194, 231),
    (203, 166, 247),
];

/// Catppuccin Macchiato.
pub const CATPPUCCIN_MACCHIATO: [(u8, u8, u8); 11] = [
    (198, 160, 246),
    (237, 135, 150),
    (138, 173, 244),
    (202, 211, 245),
    (110, 115, 141),
    (91, 96, 120),
    (165, 173, 203),
    (166, 218, 149),
    (183, 189, 248),
    (245, 189, 230),
    (198, 160, 246),
];

/// Catppuccin Frappé.
pub const CATPPUCCIN_FRAPPE: [(u8, u8, u8); 11] = [
    (202, 158, 230),
    (231, 130, 132),
    (140, 170, 238),
    (198, 208, 245),
    (115, 121, 148),
    (98, 104, 128),
    (165, 173, 206),
    (166, 209, 137),
    (186, 187, 241),
    (244, 184, 228),
    (202, 158, 230),
];

/// Catppuccin Latte (the light flavor). Darker foregrounds since the base is light.
pub const CATPPUCCIN_LATTE: [(u8, u8, u8); 11] = [
    (136, 57, 239),
    (210, 15, 57),
    (30, 102, 245),
    (76, 79, 105),
    (156, 160, 176),
    (188, 192, 204),
    (92, 95, 119),
    (64, 160, 43),
    (114, 135, 253),
    (234, 118, 203),
    (136, 57, 239),
];

/// The theme that a palette makes up.
pub open spec fn theme_of(p: Seq<(u8, u8, u8)>) -> Theme {
    Theme {
        accent: Rgb(p[0].0, p[0].1, p[0].2),
        hot: Rgb(p[1].0, p[1].1, p[1].2),
        bubble: Rgb(p[2].0, p[2].1, p[2].2),
        decay_fresh: Rgb(p[3].0, p[3].1, p[3].2),
        decay_stale: Rgb(p[4].0, p[4].1, p[4].2),
        dormant: Rgb(p[5].0, p[5].1, p[5].2),
        subtask: Rgb(p[6].0, p[6].1, p[6].2),
        note: Rgb(p[7].0, p[7].1, p[7].2),
        tag: Rgb(p[8].0, p[8].1, p[8].2),
        banner_top: Rgb(p[9].0, p[9].1, p[9].2),
        banner_bottom: Rgb(p[10].0, p[10].1, p[10].2),
    }
}

/// The theme that a name stands for.
pub open spec fn theme_named(name: Seq<char>) -> Theme {
    if name == "neon_teal"@ {
        theme_of(NEON_TEAL@)
    } else if name == "catppuccin_mocha"@ {
        theme_of(CATPPUCCIN_MOCHA@)
    } else if name == "catppuccin_macchiato"@ {
        theme_of(CATPPUCCIN_MACCHIATO@)
    } else if name == "catppuccin_frappe"@ {
        theme_of(CATPPUCCIN_FRAPPE@)
    } else if name == "catppuccin_latte"@ {
        theme_of(CATPPUCCIN_LATTE@)
    } else {
        theme_of(NEON_PURPLE@)
    }
}

/// A color of a palette.
fn rgb(c: (u8, u8, u8)) -> (r: Rgb)
    ensures
        r == Rgb(c.0, c.1, c.2),
{
    Rgb(c.0, c.1, c.2)
}

impl Theme {
    /// The theme that a palette makes up.
    fn from_palette(p: &[(u8, u8, u8); 11]) -> (r: Theme)
        ensures
            r == theme_of(p@),
    {
        Theme {
            accent: rgb(p[0]),
            hot: rgb(p[1]),
            bubble: rgb(p[2]),
            decay_fresh: rgb(p[3]),
            decay_stale: rgb(p[4]),
            dormant: rgb(p[5]),
            subtask: rgb(p[6]),
            note: rgb(p[7]),
            tag: rgb(p[8]),
            banner_top: rgb(p[9]),
            banner_bottom: rgb(p[10]),
        }
    }

    /// Resolve a config theme name; unknown names fall back to the default.
    pub fn named(name: &str) -> (r: Theme)
        ensures
            r == theme_named(name@),
    {
        if text::same_text(name, "neon_teal") {
            Theme::from_palette(&NEON_TEAL)
        } else if text::same_text(name, "catppuccin_mocha") {
            Theme::from_palette(&CATPPUCCIN_MOCHA)
        } else if text::same_text(name, "catppuccin_macchiato") {
            Theme::from_palette(&CATPPUCCIN_MACCHIATO)
        } else if text::same_text(name, "catppuccin_frappe") {
            Theme::from_palette(&CATPPUCCIN_FRAPPE)
        } else if text::same_text(name, "catppuccin_latte") {
            Theme::from_palette(&CATPPUCCIN_LATTE)
        } else {
            Theme::from_palette(&NEON_PURPLE)
        }
    }
}

/// Whether `name` is one of the theme names.
pub open spec fn is_theme_name(name: Seq<char>) -> bool {
    exists|i: int| 0 <= i < THEME_NAMES@.len() && #[trigger] THEME_NAMES@[i]@ == name
}

/// The theme names as texts.
pub open spec fn theme_names() -> Seq<Seq<char>> {
    Seq::new(THEME_NAMES@.len(), |i: int| THEME_NAMES@[i]@)
}

/// Whether `name` is one of the theme names.
pub fn known_theme(name: &str) -> (r: bool)
    ensures
        r == is_theme_name(name@),
{
    let mut i: usize = 0;
    while i < 6
        invariant
            i <= 6,
            forall|j: int| 0 <= j < i ==> #[trigger] THEME_NAMES@[j]@ != name@,
        decreases 6 - i,
    {
        if text::same_text(THEME_NAMES[i], name) {
            assert(THEME_NAMES@[i as int]@ == name@);
            return true;
        }
        i += 1;
    }
    false
}

/// The theme names, in order.
pub fn list_theme_names() -> (r: Vec<String>)
    ensures
        text::texts(r@) == theme_names(),
{
    let mut r: Vec<String> = Vec::new();
    let mut i: usize = 0;
    while i < 6
        invariant
            i <= 6,
            r@.len() == i,
            forall|j: int| 0 <= j < i ==> (#[trigger] r@[j])@ == THEME_NAMES@[j]@,
        decreases 6 - i,
    {
        r.push(THEME_NAMES[i].to_owned());
        i += 1;
    }
    assert(text::texts(r@) =~= theme_names());
    r
}

/// A name that no theme has resolves to the default theme.
pub proof fn unknown_themes_are_the_default(name: Seq<char>)
    requires
        !is_theme_name(name),
    ensures
        theme_named(name) == theme_of(NEON_PURPLE@),
{
    assert(THEME_NAMES@[1]@ == "neon_teal"@);
    assert(THEME_NAMES@[2]@ == "catppuccin_mocha"@);
    assert(THEME_NAMES@[3]@ == "catppuccin_macchiato"@);
    assert(THEME_NAMES@[4]@ == "catppuccin_frappe"@);
    assert(THEME_NAMES@[5]@ == "catppuccin_latte"@);
}

/// The glyphs of a bubbling task, one after another.
pub const BUBBLES: [&'static str; 4] = ["·", "∘", "○", "°"];

/// Block-letter "ZYM" banner; each row gets a top-to-bottom gradient at draw time.
pub const BANNER: [&'static str; 5] = [
    "███████  ██   ██  ███    ███",
    "    ███   ██ ██   ████  ████",
    "   ███     ███    ██ ████ ██",
    "  ███      ██     ██  ██  ██",
    "███████    ██     ██      ██",
];

/// The glyph of a bubbling task in a frame.
pub open spec fn bubble_of(frame: u64) -> Seq<char> {
    BUBBLES@[(frame / 2) as int % 4]@
}

/// The glyph of a bubbling task in a frame: each one lasts two frames.
pub fn bubble_glyph(frame: u64) -> (r: &'static str)
    ensures
        r@ == bubble_of(frame),
{
    BUBBLES[((frame / 2) % 4) as usize]
}

/// How far a breathing color has risen, in twelfths: up over twelve frames, then
/// down over twelve.
pub open spec fn breath_of(frame: u64) -> int {
    let phase = frame as int % 24;
    if phase < 12 {
        phase
    } else {
        24 - phase
    }
}

/// How far a breathing color has risen, in twelfths.
pub fn breath(frame: u64) -> (r: u64)
    ensures
        r == breath_of(frame),
{
    let phase: u64 = frame % 24;
    if phase < 12 {
        phase
    } else {
        24 - phase
    }
}

/// The bubble glyphs come round again after all of them were shown.
pub proof fn bubbles_cycle(frame: u64)
    requires
        frame + 2 * BUBBLES@.len() <= u64::MAX,
    ensures
        bubble_of((frame + 2 * BUBBLES@.len()) as u64) == bubble_of(frame),
{
}

/// A breath never rises above the full color, starts at the bottom, and moves by
/// at most one step per frame.
pub proof fn breath_is_gentle(frame: u64)
    requires
        frame < u64::MAX,
    ensures
        0 <= breath_of(frame) <= 12,
        frame % 24 == 0 ==> breath_of(frame) == 0,
        -1 <= breath_of((frame + 1) as u64) - breath_of(frame) <= 1,
{
}

} // verus!
