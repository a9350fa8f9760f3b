//! Colour themes, and how they are laid over what programs show.

use crate::cells::{CellBuffer, Color};
use crate::input::Rect;
use vstd::prelude::*;

verus! {

/// A theme.
#[derive(Clone, Copy, PartialEq, Eq, Structural, Hash, Debug)]
pub enum ThemeName {
    Classic,
    Gruvbox,
    Nord,
    Dracula,
    CatppuccinMocha,
    CatppuccinLatte,
    Palenight,
    SolarizedDark,
    SolarizedLight,
    TokyoNight,
}

impl Default for ThemeName {
    fn default() -> (name: ThemeName)
        ensures
            name == ThemeName::Classic,
    {
        ThemeName::Classic
    }
}

impl ThemeName {
    /// All themes: the one that leaves colours to the terminal, the dark ones, the light ones.
    pub const ALL: [ThemeName; 10] = [
        ThemeName::Classic,
        ThemeName::Gruvbox,
        ThemeName::Nord,
        ThemeName::Dracula,
        ThemeName::CatppuccinMocha,
        ThemeName::Palenight,
        ThemeName::SolarizedDark,
        ThemeName::TokyoNight,
        ThemeName::CatppuccinLatte,
        ThemeName::SolarizedLight,
    ];

    /// The dark themes.
    pub const DARK: [ThemeName; 7] = [
        ThemeName::Gruvbox,
        ThemeName::Nord,
        ThemeName::Dracula,
        ThemeName::CatppuccinMocha,
        ThemeName::Palenight,
        ThemeName::SolarizedDark,
        ThemeName::TokyoNight,
    ];

    /// The light themes.
    pub const LIGHT: [ThemeName; 2] = [ThemeName::CatppuccinLatte, ThemeName::SolarizedLight];

    /// Whether a theme is light.
    pub open spec fn light(self) -> bool {
        self == ThemeName::CatppuccinLatte || self == ThemeName::SolarizedLight
    }

    /// The name under which a theme is listed.
    pub open spec fn spec_label(self) -> Seq<char> {
        match self {
            ThemeName::Classic => "CST Classic"@,
            ThemeName::Gruvbox => "Gruvbox"@,
            ThemeName::Nord => "Nord"@,
            ThemeName::Dracula => "Dracula"@,
            ThemeName::CatppuccinMocha => "Catppuccin Mocha"@,
            ThemeName::CatppuccinLatte => "Catppuccin Latte"@,
            ThemeName::Palenight => "Palenight"@,
            ThemeName::SolarizedDark => "Solarized Dark"@,
            ThemeName::SolarizedLight => "Solarized Light"@,
            ThemeName::TokyoNight => "Tokyo Night"@,
        }
    }

    /// The name under which a theme is listed.
    pub fn label(self) -> (label: &'static str)
        ensures
            label@ == self.spec_label(),
    {
        match self {
            ThemeName::Classic => "CST Classic",
            ThemeName::Gruvbox => "Gruvbox",
            ThemeName::Nord => "Nord",
            ThemeName::Dracula => "Dracula",
            ThemeName::CatppuccinMocha => "Catppuccin Mocha",
            ThemeName::CatppuccinLatte => "Catppuccin Latte",
            ThemeName::Palenight => "Palenight",
            ThemeName::SolarizedDark => "Solarized Dark",
            ThemeName::SolarizedLight => "Solarized Light",
            ThemeName::TokyoNight => "Tokyo Night",
        }
    }

    /// Whether a theme is light.
    pub fn is_light(self) -> (light: bool)
        ensures
            light == self.light(),
    {
        match self {
            ThemeName::CatppuccinLatte | ThemeName::SolarizedLight => true,
            _ => false,
        }
    }

    /// What a child is told of the terminal's background. A theme that leaves the colours to the
    /// terminal says nothing of it.
    pub fn terminal_light_mode(self) -> (mode: Option<bool>)
        ensures
            mode == (if self == ThemeName::Classic {
                None
            } else {
                Some(self.light())
            }),
    {
        match self {
            ThemeName::Classic => None,
            _ => Some(self.is_light()),
        }
    }

    /// The colours of a theme.
    pub fn theme(self) -> (theme: Theme)
        ensures
            is_theme_of(self, theme),
    {
        match palette_colors(self) {
            Some(colors) => build(self, &palette_from(&colors)),
            None => classic(),
        }
    }
}

/// The colours of Gruvbox.
pub const GRUVBOX: [u32; 10] = [
    0x282828, 0x3c3836, 0x504945, 0xebdbb2, 0x928374,
    0xfe8019, 0x83a598, 0x8ec07c, 0xfabd2f, 0xfb4934,
];

/// The colours of Nord.
pub const NORD: [u32; 10] = [
    0x2e3440, 0x3b4252, 0x434c5e, 0xeceff4, 0x7b88a1,
    0x88c0d0, 0x8fbcbb, 0xa3be8c, 0xebcb8b, 0xbf616a,
];

/// The colours of Dracula.
pub const DRACULA: [u32; 10] = [
    0x282a36, 0x343746, 0x44475a, 0xf8f8f2, 0x6272a4,
    0xbd93f9, 0x8be9fd, 0x50fa7b, 0xffb86c, 0xff5555,
];

/// The colours of Catppuccin Mocha.
pub const CATPPUCCIN_MOCHA: [u32; 10] = [
    0x1e1e2e, 0x313244, 0x45475a, 0xcdd6f4, 0x6c7086,
    0xcba6f7, 0x94e2d5, 0xa6e3a1, 0xf9e2af, 0xf38ba8,
];

/// The colours of Catppuccin Latte.
pub const CATPPUCCIN_LATTE: [u32; 10] = [
    0xeff1f5, 0xccd0da, 0xeff1f5, 0x4c4f69, 0x64677c,
    0x8839ef, 0x179299, 0x40a02b, 0xdf8e1d, 0xd20f39,
];

/// The colours of Palenight.
pub const PALENIGHT: [u32; 10] = [
    0x292d3e, 0x32374d, 0x434758, 0xa6accd, 0x676e95,
    0xc792ea, 0x82aaff, 0xc3e88d, 0xffcb6b, 0xf07178,
];

/// The colours of Solarized Dark.
pub const SOLARIZED_DARK: [u32; 10] = [
    0x002b36, 0x073642, 0x0a4050, 0x93a1a1, 0x586e75,
    0x268bd2, 0x2aa198, 0x859900, 0xb58900, 0xdc322f,
];

/// The colours of Solarized Light.
pub const SOLARIZED_LIGHT: [u32; 10] = [
    0xfdf6e3, 0xeee8d5, 0xfdf6e3, 0x586e75, 0x5f747b,
    0x268bd2, 0x2aa198, 0x859900, 0xb58900, 0xdc322f,
];

/// The colours of Tokyo Night.
pub const TOKYO_NIGHT: [u32; 10] = [
    0x1a1b26, 0x24283b, 0x33467c, 0xa9b1d6, 0x565f89,
    0xbb9af7, 0x73daca, 0x9ece6a, 0xe0af68, 0xf7768e,
];

/// The colours that a theme is built from: background, bars, raised surfaces, text, muted text, accent,
/// second accent, success, warning, error. The theme that leaves colours to the terminal has none.
pub open spec fn theme_colors(name: ThemeName) -> Option<Seq<u32>> {
    match name {
        ThemeName::Classic => None,
        _ => Some(named_colors(name)),
    }
}

/// The colours of a theme other than the one that leaves them to the terminal.
pub open spec fn named_colors(name: ThemeName) -> Seq<u32> {
    match name {
        ThemeName::Classic => Seq::empty(),
        ThemeName::Gruvbox => GRUVBOX@,
        ThemeName::Nord => NORD@,
        ThemeName::Dracula => DRACULA@,
        ThemeName::CatppuccinMocha => CATPPUCCIN_MOCHA@,
        ThemeName::CatppuccinLatte => CATPPUCCIN_LATTE@,
        ThemeName::Palenight => PALENIGHT@,
        ThemeName::SolarizedDark => SOLARIZED_DARK@,
        ThemeName::SolarizedLight => SOLARIZED_LIGHT@,
        ThemeName::TokyoNight => TOKYO_NIGHT@,
    }
}

fn palette_colors(name: ThemeName) -> (colors: Option<[u32; 10]>)
    ensures
        match colors {
            Some(c) => theme_colors(name) == Some(c@),
            None => theme_colors(name) is None,
        },
{
    let colors = match name {
        ThemeName::Classic => return None,
        ThemeName::Gruvbox => GRUVBOX,
        ThemeName::Nord => NORD,
        ThemeName::Dracula => DRACULA,
        ThemeName::CatppuccinMocha => CATPPUCCIN_MOCHA,
        ThemeName::CatppuccinLatte => CATPPUCCIN_LATTE,
        ThemeName::Palenight => PALENIGHT,
        ThemeName::SolarizedDark => SOLARIZED_DARK,
        ThemeName::SolarizedLight => SOLARIZED_LIGHT,
        ThemeName::TokyoNight => TOKYO_NIGHT,
    };
    Some(colors)
}

/// The colour of a number that holds its three parts.
pub open spec fn rgb_number(n: u32) -> Color {
    Color::Rgb((n / 65536 % 256) as u8, (n / 256 % 256) as u8, (n % 256) as u8)
}

fn rgb(n: u32) -> (color: Color)
    ensures
        color == rgb_number(n),
{
    Color::Rgb((n / 65536 % 256) as u8, (n / 256 % 256) as u8, (n % 256) as u8)
}

/// The colours that a theme is built from.
#[derive(Clone, Copy, PartialEq, Eq, Structural, Debug)]
pub struct Palette {
    pub bg: Color,
    pub chrome: Color,
    pub surface: Color,
    pub text: Color,
    pub muted: Color,
    pub accent: Color,
    pub accent_alt: Color,
    pub success: Color,
    pub warning: Color,
    pub error: Color,
}

/// The colours that a theme is built from.
pub open spec fn palette_of(colors: Seq<u32>) -> Palette {
    Palette {
        bg: rgb_number(colors[0]),
        chrome: rgb_number(colors[1]),
        surface: rgb_number(colors[2]),
        text: rgb_number(colors[3]),
        muted: rgb_number(colors[4]),
        accent: rgb_number(colors[5]),
        accent_alt: rgb_number(colors[6]),
        success: rgb_number(colors[7]),
        warning: rgb_number(colors[8]),
        error: rgb_number(colors[9]),
    }
}

fn palette_from(colors: &[u32; 10]) -> (palette: Palette)
    ensures
        palette == palette_of(colors@),
{
    Palette {
        bg: rgb(colors[0]),
        chrome: rgb(colors[1]),
        surface: rgb(colors[2]),
        text: rgb(colors[3]),
        muted: rgb(colors[4]),
        accent: rgb(colors[5]),
        accent_alt: rgb(colors[6]),
        success: rgb(colors[7]),
        warning: rgb(colors[8]),
        error: rgb(colors[9]),
    }
}

/// The colours of a theme, by what they are for.
#[derive(Clone, Copy, Debug)]
pub struct Theme {
    pub name: ThemeName,
    pub is_light: bool,
    pub background: Color,
    pub chrome_bg: Color,
    pub surface: Color,
    pub text: Color,
    pub muted: Color,
    pub accent: Color,
    pub accent_alt: Color,
    pub selection_fg: Color,
    pub selection_bg: Color,
    pub success: Color,
    pub warning: Color,
    pub error: Color,
    pub info: Color,
    pub inactive: Color,
    pub directory: Color,
    pub diff_context_bg: Color,
    pub diff_add_bg: Color,
    pub diff_delete_bg: Color,
    pub diff_hunk_bg: Color,
    pub diff_meta_bg: Color,
    pub diff_code_fg: Color,
    pub diff_gutter_fg: Color,
    pub ansi: [Color; 16],
    pub syntax_theme: &'static str,
}

/// The sixteen colours that a theme gives to programs.
pub open spec fn theme_ansi(name: ThemeName, p: Palette) -> Seq<Color> {
    seq![
        if name.light() {
            p.text
        } else {
            p.surface
        },
        p.error,
        p.success,
        p.warning,
        p.accent,
        p.accent,
        p.accent_alt,
        p.text,
        p.muted,
        p.error,
        p.success,
        p.warning,
        p.accent,
        p.accent,
        p.accent_alt,
        p.text,
    ]
}

/// Whether a theme is the one built from colours.
pub open spec fn built_from(name: ThemeName, p: Palette, theme: Theme) -> bool {
    &&& theme.name == name
    &&& theme.is_light == name.light()
    &&& theme.background == p.bg
    &&& theme.chrome_bg == p.chrome
    &&& theme.surface == p.surface
    &&& theme.text == p.text
    &&& theme.muted == p.muted
    &&& theme.accent == p.accent
    &&& theme.accent_alt == p.accent_alt
    &&& theme.selection_fg == plain_contrast(p.accent)
    &&& theme.selection_bg == p.accent
    &&& theme.success == p.success
    &&& theme.warning == p.warning
    &&& theme.error == p.error
    &&& theme.info == p.accent_alt
    &&& theme.inactive == p.muted
    &&& theme.directory == p.accent_alt
    &&& theme.diff_context_bg == p.bg
    &&& theme.diff_add_bg == blended(p.bg, p.success, if name.light() {
        18
    } else {
        25
    })
    &&& theme.diff_delete_bg == blended(p.bg, p.error, if name.light() {
        16
    } else {
        25
    })
    &&& theme.diff_hunk_bg == blended(p.bg, p.accent, if name.light() {
        14
    } else {
        30
    })
    &&& theme.diff_meta_bg == p.chrome
    &&& theme.diff_code_fg == p.text
    &&& theme.diff_gutter_fg == p.muted
    &&& theme.ansi@ == theme_ansi(name, p)
    &&& theme.syntax_theme@ == (if name.light() {
        "inspired-github"@
    } else {
        "dracula"@
    })
}

/// Whether a theme is the one that leaves colours to the terminal.
pub open spec fn is_classic(theme: Theme) -> bool {
    &&& theme.name == ThemeName::Classic
    &&& !theme.is_light
    &&& theme.background == Color::Reset
    &&& theme.chrome_bg == Color::Rgb(30, 30, 40)
    &&& theme.surface == Color::Reset
    &&& theme.text == Color::White
    &&& theme.muted == Color::DarkGray
    &&& theme.accent == Color::Magenta
    &&& theme.accent_alt == Color::Cyan
    &&& theme.selection_fg == Color::Black
    &&& theme.selection_bg == Color::Cyan
    &&& theme.success == Color::Green
    &&& theme.warning == Color::Yellow
    &&& theme.error == Color::Red
    &&& theme.info == Color::Cyan
    &&& theme.inactive == Color::DarkGray
    &&& theme.directory == Color::Blue
    &&& theme.diff_context_bg == Color::Rgb(15, 17, 22)
    &&& theme.diff_add_bg == Color::Rgb(18, 52, 31)
    &&& theme.diff_delete_bg == Color::Rgb(62, 25, 31)
    &&& theme.diff_hunk_bg == Color::Rgb(24, 40, 67)
    &&& theme.diff_meta_bg == Color::Rgb(31, 31, 42)
    &&& theme.diff_code_fg == Color::Rgb(205, 214, 244)
    &&& theme.diff_gutter_fg == Color::Rgb(108, 112, 134)
    &&& theme.ansi@ == seq![
        Color::Black,
        Color::Red,
        Color::Green,
        Color::Yellow,
        Color::Blue,
        Color::Magenta,
        Color::Cyan,
        Color::Gray,
        Color::DarkGray,
        Color::LightRed,
        Color::LightGreen,
        Color::LightYellow,
        Color::LightBlue,
        Color::LightMagenta,
        Color::LightCyan,
        Color::White,
    ]
    &&& theme.syntax_theme@ == "dracula"@
}

/// Whether colours are those of a theme.
pub open spec fn is_theme_of(name: ThemeName, theme: Theme) -> bool {
    match theme_colors(name) {
        Some(colors) => built_from(name, palette_of(colors), theme),
        None => is_classic(theme),
    }
}

fn build(name: ThemeName, p: &Palette) -> (theme: Theme)
    ensures
        built_from(name, *p, theme),
{
    let light = name.is_light();
    let ansi = [
        if light {
            p.text
        } else {
            p.surface
        },
        p.error,
        p.success,
        p.warning,
        p.accent,
        p.accent,
        p.accent_alt,
        p.text,
        p.muted,
        p.error,
        p.success,
        p.warning,
        p.accent,
        p.accent,
        p.accent_alt,
        p.text,
    ];
    assert(ansi@ =~= theme_ansi(name, *p));
    Theme {
        name,
        is_light: light,
        background: p.bg,
        chrome_bg: p.chrome,
        surface: p.surface,
        text: p.text,
        muted: p.muted,
        accent: p.accent,
        accent_alt: p.accent_alt,
        selection_fg: best_contrast_text(p.accent),
        selection_bg: p.accent,
        success: p.success,
        warning: p.warning,
        error: p.error,
        info: p.accent_alt,
        inactive: p.muted,
        directory: p.accent_alt,
        diff_context_bg: p.bg,
        diff_add_bg: blend(
            p.bg,
            p.success,
            if light {
                18
            } else {
                25
            },
        ),
        diff_delete_bg: blend(
            p.bg,
            p.error,
            if light {
                16
            } else {
                25
            },
        ),
        diff_hunk_bg: blend(
            p.bg,
            p.accent,
            if light {
                14
            } else {
                30
            },
        ),
        diff_meta_bg: p.chrome,
        diff_code_fg: p.text,
        diff_gutter_fg: p.muted,
        ansi,
        syntax_theme: if light {
            "inspired-github"
        } else {
            "dracula"
        },
    }
}

fn classic() -> (theme: Theme)
    ensures
        is_classic(theme),
{
    let ansi = [
        Color::Black,
        Color::Red,
        Color::Green,
        Color::Yellow,
        Color::Blue,
        Color::Magenta,
        Color::Cyan,
        Color::Gray,
        Color::DarkGray,
        Color::LightRed,
        Color::LightGreen,
        Color::LightYellow,
        Color::LightBlue,
        Color::LightMagenta,
        Color::LightCyan,
        Color::White,
    ];
    let theme = Theme {
        name: ThemeName::Classic,
        is_light: false,
        background: Color::Reset,
        chrome_bg: Color::Rgb(30, 30, 40),
        surface: Color::Reset,
        text: Color::White,
        muted: Color::DarkGray,
        accent: Color::Magenta,
        accent_alt: Color::Cyan,
        selection_fg: Color::Black,
        selection_bg: Color::Cyan,
        success: Color::Green,
        warning: Color::Yellow,
        error: Color::Red,
        info: Color::Cyan,
        inactive: Color::DarkGray,
        directory: Color::Blue,
        diff_context_bg: Color::Rgb(15, 17, 22),
        diff_add_bg: Color::Rgb(18, 52, 31),
        diff_delete_bg: Color::Rgb(62, 25, 31),
        diff_hunk_bg: Color::Rgb(24, 40, 67),
        diff_meta_bg: Color::Rgb(31, 31, 42),
        diff_code_fg: Color::Rgb(205, 214, 244),
        diff_gutter_fg: Color::Rgb(108, 112, 134),
        ansi,
        syntax_theme: "dracula",
    };
    assert(theme.ansi@ =~= seq![
        Color::Black,
        Color::Red,
        Color::Green,
        Color::Yellow,
        Color::Blue,
        Color::Magenta,
        Color::Cyan,
        Color::Gray,
        Color::DarkGray,
        Color::LightRed,
        Color::LightGreen,
        Color::LightYellow,
        Color::LightBlue,
        Color::LightMagenta,
        Color::LightCyan,
        Color::White,
    ]);
    theme
}

/// The first sixteen of the 256 indexed colours.
pub const ANSI_RGB: [u32; 16] = [
    0x000000, 0xcd0000, 0x00cd00, 0xcdcd00, 0x0000ee, 0xcd00cd, 0x00cdcd, 0xe5e5e5,
    0x7f7f7f, 0xff0000, 0x00ff00, 0xffff00, 0x5c5cff, 0xff00ff, 0x00ffff, 0xffffff,
];

/// A step of the colour cube.
pub open spec fn cube_level(step: int) -> int {
    if step == 0 {
        0
    } else {
        55 + step * 40
    }
}

/// The parts of an indexed colour: sixteen of their own, a cube with six steps to each side, and a
/// ramp of grays.
pub open spec fn indexed_parts(index: u8) -> (u8, u8, u8) {
    if index < 16 {
        let n = ANSI_RGB@[index as int];
        ((n / 65536 % 256) as u8, (n / 256 % 256) as u8, (n % 256) as u8)
    } else if index < 232 {
        let value = index - 16;
        (
            cube_level(value / 36) as u8,
            cube_level(value % 36 / 6) as u8,
            cube_level(value % 6) as u8,
        )
    } else {
        let gray = (8 + (index - 232) * 10) as u8;
        (gray, gray, gray)
    }
}

fn level(step: u8) -> (value: u8)
    requires
        step < 6,
    ensures
        value == cube_level(step as int),
{
    if step == 0 {
        0
    } else {
        55 + step * 40
    }
}

/// The parts of an indexed colour.
pub fn xterm_rgb(index: u8) -> (parts: (u8, u8, u8))
    ensures
        parts == indexed_parts(index),
{
    if index < 16 {
        let n: u32 = ANSI_RGB[index as usize];
        ((n / 65536 % 256) as u8, (n / 256 % 256) as u8, (n % 256) as u8)
    } else if index < 232 {
        let value: u8 = index - 16;
        (level(value / 36), level(value % 36 / 6), level(value % 6))
    } else {
        let gray: u8 = 8 + (index - 232) * 10;
        (gray, gray, gray)
    }
}

/// The parts of a colour. The terminal's own has none that are known.
pub open spec fn color_parts(color: Color) -> Option<(u8, u8, u8)> {
    match color {
        Color::Rgb(r, g, b) => Some((r, g, b)),
        Color::Indexed(index) => Some(indexed_parts(index)),
        Color::Black => Some((0, 0, 0)),
        Color::Red => Some((205, 49, 49)),
        Color::Green => Some((13, 188, 121)),
        Color::Yellow => Some((229, 229, 16)),
        Color::Blue => Some((36, 114, 200)),
        Color::Magenta => Some((188, 63, 188)),
        Color::Cyan => Some((17, 168, 205)),
        Color::Gray => Some((229, 229, 229)),
        Color::DarkGray => Some((102, 102, 102)),
        Color::LightRed => Some((241, 76, 76)),
        Color::LightGreen => Some((35, 209, 139)),
        Color::LightYellow => Some((245, 245, 67)),
        Color::LightBlue => Some((59, 142, 234)),
        Color::LightMagenta => Some((214, 112, 214)),
        Color::LightCyan => Some((41, 184, 219)),
        Color::White => Some((255, 255, 255)),
        Color::Reset => None,
    }
}

/// The parts of a colour.
pub fn rgb_components(color: Color) -> (parts: Option<(u8, u8, u8)>)
    ensures
        parts == color_parts(color),
{
    match color {
        Color::Rgb(r, g, b) => Some((r, g, b)),
        Color::Indexed(index) => Some(xterm_rgb(index)),
        Color::Black => Some((0, 0, 0)),
        Color::Red => Some((205, 49, 49)),
        Color::Green => Some((13, 188, 121)),
        Color::Yellow => Some((229, 229, 16)),
        Color::Blue => Some((36, 114, 200)),
        Color::Magenta => Some((188, 63, 188)),
        Color::Cyan => Some((17, 168, 205)),
        Color::Gray => Some((229, 229, 229)),
        Color::DarkGray => Some((102, 102, 102)),
        Color::LightRed => Some((241, 76, 76)),
        Color::LightGreen => Some((35, 209, 139)),
        Color::LightYellow => Some((245, 245, 67)),
        Color::LightBlue => Some((59, 142, 234)),
        Color::LightMagenta => Some((214, 112, 214)),
        Color::LightCyan => Some((41, 184, 219)),
        Color::White => Some((255, 255, 255)),
        Color::Reset => None,
    }
}

/// The parts of a colour, or those of another where it has none that are known.
pub open spec fn parts_or(color: Color, other: (u8, u8, u8)) -> (u8, u8, u8) {
    match color_parts(color) {
        Some(parts) => parts,
        None => other,
    }
}

/// A part of a colour with some percent of another mixed in.
pub open spec fn mixed(base: u8, tint: u8, percent: int) -> u8 {
    ((base * (100 - percent) + tint * percent) / 100) as u8
}

/// A colour with some percent of another mixed in.
pub open spec fn blended(base: Color, tint: Color, percent: int) -> Color {
    let from = parts_or(base, (0, 0, 0));
    let to = parts_or(tint, from);
    Color::Rgb(
        mixed(from.0, to.0, percent),
        mixed(from.1, to.1, percent),
        mixed(from.2, to.2, percent),
    )
}

fn mix(base: u8, tint: u8, percent: u16) -> (part: u8)
    requires
        percent <= 100,
    ensures
        part == mixed(base, tint, percent as int),
{
    assert(base * (100 - percent) <= 255 * 100) by (nonlinear_arith)
        requires
            base <= 255,
            percent <= 100,
    ;
    assert(tint * percent <= 255 * 100) by (nonlinear_arith)
        requires
            tint <= 255,
            percent <= 100,
    ;
    assert(base * (100 - percent) + tint * percent <= 255 * 100) by (nonlinear_arith)
        requires
            base <= 255,
            tint <= 255,
            percent <= 100,
    ;
    assert(base * (100 - percent) >= 0) by (nonlinear_arith)
        requires
            percent <= 100,
    ;
    ((base as u16 * (100 - percent) + tint as u16 * percent) / 100) as u8
}

/// A colour with some percent of another mixed in.
pub fn blend(base: Color, tint: Color, tint_percent: u16) -> (color: Color)
    requires
        tint_percent <= 100,
    ensures
        color == blended(base, tint, tint_percent as int),
{
    let from = match rgb_components(base) {
        Some(parts) => parts,
        None => (0, 0, 0),
    };
    let to = match rgb_components(tint) {
        Some(parts) => parts,
        None => from,
    };
    Color::Rgb(
        mix(from.0, to.0, tint_percent),
        mix(from.1, to.1, tint_percent),
        mix(from.2, to.2, tint_percent),
    )
}

/// How much light a part of an sRGB colour gives, in billionths of the most.
pub const LINEAR_LIGHT: [u64; 256] = [
    0, 303527, 607054, 910581, 1214108, 1517635, 1821162, 2124689,
    2428216, 2731743, 3035270, 3346536, 3676507, 4024717, 4391442, 4776953,
    5181517, 5605392, 6048833, 6512091, 6995410, 7499032, 8023193, 8568126,
    9134059, 9721217, 10329823, 10960094, 11612245, 12286488, 12983032, 13702083,
    14443844, 15208514, 15996293, 16807376, 17641954, 18500220, 19382361, 20288563,
    21219010, 22173885, 23153366, 24157632, 25186860, 26241222, 27320892, 28426040,
    29556834, 30713444, 31896033, 33104767, 34339807, 35601315, 36889450, 38204372,
    39546235, 40915197, 42311411, 43735029, 45186204, 46665086, 48171824, 49706566,
    51269458, 52860647, 54480276, 56128490, 57805430, 59511238, 61246054, 63010018,
    64803267, 66625939, 68478170, 70360096, 72271851, 74213568, 76185381, 78187422,
    80219820, 82282707, 84376212, 86500462, 88655586, 90841711, 93058963, 95307467,
    97587347, 99898728, 102241733, 104616484, 107023103, 109461711, 111932428, 114435374,
    116970668, 119538428, 122138772, 124771818, 127437680, 130136477, 132868322, 135633330,
    138431615, 141263291, 144128471, 147027266, 149959790, 152926152, 155926464, 158960835,
    162029376, 165132195, 168269400, 171441101, 174647404, 177888416, 181164244, 184474995,
    187820772, 191201683, 194617830, 198069320, 201556254, 205078736, 208636870, 212230757,
    215860500, 219526200, 223227957, 226965874, 230740049, 234550582, 238397574, 242281122,
    246201327, 250158285, 254152094, 258182853, 262250658, 266355605, 270497791, 274677312,
    278894263, 283148740, 287440838, 291770650, 296138271, 300543794, 304987314, 309468923,
    313988713, 318546778, 323143209, 327778098, 332451536, 337163615, 341914425, 346704056,
    351532600, 356400144, 361306780, 366252596, 371237680, 376262123, 381326011, 386429434,
    391572478, 396755231, 401977780, 407240212, 412542613, 417885071, 423267670, 428690497,
    434153636, 439657174, 445201195, 450785783, 456411023, 462077000, 467783796, 473531496,
    479320183, 485149940, 491020850, 496932995, 502886458, 508881321, 514917665, 520995573,
    527115126, 533276404, 539479489, 545724461, 552011402, 558340390, 564711506, 571124829,
    577580440, 584078418, 590618841, 597201788, 603827339, 610495571, 617206562, 623960392,
    630757136, 637596874, 644479682, 651405637, 658374817, 665387298, 672443157, 679542470,
    686685312, 693871761, 701101892, 708375780, 715693501, 723055129, 730460740, 737910409,
    745404210, 752942217, 760524505, 768151147, 775822218, 783537792, 791297940, 799102738,
    806952258, 814846572, 822785754, 830769877, 838799012, 846873232, 854992608, 863157213,
    871367119, 879622397, 887923118, 896269353, 904661174, 913098652, 921581856, 930110858,
    938685728, 947306537, 955973353, 964686248, 973445290, 982250550, 991102097, 1000000000,
];

/// How much light a colour gives, by the weights of its parts, in ten-billionths of a thousandth of the
/// most.
pub open spec fn luminance(color: Color) -> int {
    let parts = parts_or(color, (0, 0, 0));
    2126 * LINEAR_LIGHT@[parts.0 as int] + 7152 * LINEAR_LIGHT@[parts.1 as int] + 722
        * LINEAR_LIGHT@[parts.2 as int]
}

/// The light of a colour together with the light that the surroundings add, a twentieth of the most.
pub open spec fn seen_light(color: Color) -> int {
    luminance(color) + 500_000_000_000
}

/// The larger of two.
pub open spec fn larger(a: int, b: int) -> int {
    if a > b {
        a
    } else {
        b
    }
}

/// The smaller of two.
pub open spec fn smaller(a: int, b: int) -> int {
    if a < b {
        a
    } else {
        b
    }
}

/// Whether two colours stand out from each other enough to be read: one gives four and a half times
/// the light of the other.
pub open spec fn readable(a: Color, b: Color) -> bool {
    2 * larger(seen_light(a), seen_light(b)) >= 9 * smaller(seen_light(a), seen_light(b))
}

/// Whether a colour stands out from a background at least as much as another does.
pub open spec fn stands_out(a: Color, b: Color, background: Color) -> bool {
    larger(seen_light(a), seen_light(background)) * smaller(seen_light(b), seen_light(background))
        >= larger(seen_light(b), seen_light(background)) * smaller(
        seen_light(a),
        seen_light(background),
    )
}

/// The light text that is put on dark backgrounds.
pub open spec fn light_text() -> Color {
    Color::Rgb(0xf8, 0xf8, 0xf2)
}

/// The dark text that is put on light backgrounds.
pub open spec fn dark_text() -> Color {
    Color::Rgb(0x1a, 0x1b, 0x26)
}

/// The text, light or dark, that stands out more from a background.
pub open spec fn plain_contrast(background: Color) -> Color {
    if stands_out(light_text(), dark_text(), background) {
        light_text()
    } else {
        dark_text()
    }
}

proof fn lemma_linear_light_bound(i: int)
    requires
        0 <= i < 256,
    ensures
        LINEAR_LIGHT@[i] <= 1_000_000_000,
{
}

fn light_of(color: Color) -> (light: u64)
    ensures
        light == seen_light(color),
        light <= 10_500_000_000_000,
{
    let parts = match rgb_components(color) {
        Some(parts) => parts,
        None => (0, 0, 0),
    };
    proof {
        lemma_linear_light_bound(parts.0 as int);
        lemma_linear_light_bound(parts.1 as int);
        lemma_linear_light_bound(parts.2 as int);
    }
    let red: u64 = LINEAR_LIGHT[parts.0 as usize];
    let green: u64 = LINEAR_LIGHT[parts.1 as usize];
    let blue: u64 = LINEAR_LIGHT[parts.2 as usize];
    2126 * red + 7152 * green + 722 * blue + 500_000_000_000
}

/// Whether two colours stand out from each other enough to be read.
pub fn is_readable(a: Color, b: Color) -> (r: bool)
    ensures
        r == readable(a, b),
{
    let x: u64 = light_of(a);
    let y: u64 = light_of(b);
    if x > y {
        2 * x >= 9 * y
    } else {
        2 * y >= 9 * x
    }
}

fn product(a: u64, b: u64) -> (r: u128)
    ensures
        r == a * b,
{
    assert(a * b <= 0xffff_ffff_ffff_ffff * 0xffff_ffff_ffff_ffff) by (nonlinear_arith)
        requires
            a <= 0xffff_ffff_ffff_ffff,
            b <= 0xffff_ffff_ffff_ffff,
    ;
    a as u128 * b as u128
}

/// The text, light or dark, that stands out more from a background.
pub fn best_contrast_text(background: Color) -> (color: Color)
    ensures
        color == plain_contrast(background),
{
    let light = Color::Rgb(0xf8, 0xf8, 0xf2);
    let dark = Color::Rgb(0x1a, 0x1b, 0x26);
    let a: u64 = light_of(light);
    let b: u64 = light_of(dark);
    let ground: u64 = light_of(background);
    let high_a: u64 = if a > ground {
        a
    } else {
        ground
    };
    let low_a: u64 = if a < ground {
        a
    } else {
        ground
    };
    let high_b: u64 = if b > ground {
        b
    } else {
        ground
    };
    let low_b: u64 = if b < ground {
        b
    } else {
        ground
    };
    if product(high_a, low_b) >= product(high_b, low_a) {
        light
    } else {
        dark
    }
}

/// The text that is put on a background: the theme's own where it can be read, else light or dark.
pub open spec fn text_on(theme: Theme, background: Color) -> Color {
    if readable(theme.text, background) {
        theme.text
    } else {
        plain_contrast(background)
    }
}

impl Theme {
    /// The text that is put on a background.
    pub fn contrast_text(self, background: Color) -> (color: Color)
        ensures
            color == text_on(self, background),
    {
        if is_readable(self.text, background) {
            self.text
        } else {
            best_contrast_text(background)
        }
    }
}

/// What a theme makes of a colour that a program shows: the terminal's own and the sixteen standard
/// ones become the theme's; all others stay.
pub open spec fn themed_color(color: Color, theme: Theme, foreground: bool) -> Color {
    match color {
        Color::Reset => if theme.name == ThemeName::Classic {
            Color::Reset
        } else if foreground {
            theme.text
        } else {
            theme.background
        },
        Color::Indexed(index) => if index < 16 {
            theme.ansi@[index as int]
        } else {
            color
        },
        Color::Black => theme.ansi@[0],
        Color::Red => theme.ansi@[1],
        Color::Green => theme.ansi@[2],
        Color::Yellow => theme.ansi@[3],
        Color::Blue => theme.ansi@[4],
        Color::Magenta => theme.ansi@[5],
        Color::Cyan => theme.ansi@[6],
        Color::Gray => theme.ansi@[7],
        Color::DarkGray => theme.ansi@[8],
        Color::LightRed => theme.ansi@[9],
        Color::LightGreen => theme.ansi@[10],
        Color::LightYellow => theme.ansi@[11],
        Color::LightBlue => theme.ansi@[12],
        Color::LightMagenta => theme.ansi@[13],
        Color::LightCyan => theme.ansi@[14],
        Color::White => theme.ansi@[15],
        Color::Rgb(_, _, _) => color,
    }
}

/// What a theme makes of a colour that a program shows.
pub fn map_terminal_color(color: Color, theme: &Theme, foreground: bool) -> (mapped: Color)
    ensures
        mapped == themed_color(color, *theme, foreground),
{
    match color {
        Color::Reset => {
            if theme.name == ThemeName::Classic {
                Color::Reset
            } else if foreground {
                theme.text
            } else {
                theme.background
            }
        },
        Color::Indexed(index) => {
            if index < 16 {
                theme.ansi[index as usize]
            } else {
                color
            }
        },
        Color::Black => theme.ansi[0],
        Color::Red => theme.ansi[1],
        Color::Green => theme.ansi[2],
        Color::Yellow => theme.ansi[3],
        Color::Blue => theme.ansi[4],
        Color::Magenta => theme.ansi[5],
        Color::Cyan => theme.ansi[6],
        Color::Gray => theme.ansi[7],
        Color::DarkGray => theme.ansi[8],
        Color::LightRed => theme.ansi[9],
        Color::LightGreen => theme.ansi[10],
        Color::LightYellow => theme.ansi[11],
        Color::LightBlue => theme.ansi[12],
        Color::LightMagenta => theme.ansi[13],
        Color::LightCyan => theme.ansi[14],
        Color::White => theme.ansi[15],
        Color::Rgb(_, _, _) => color,
    }
}

/// The colours of a cell under a theme. Text in the terminal's own colour is kept readable where the
/// program chose a background.
pub open spec fn themed_pair(fg: Color, bg: Color, theme: Theme) -> (Color, Color) {
    let ground = themed_color(bg, theme, false);
    if fg == Color::Reset && ground != theme.background {
        (text_on(theme, ground), ground)
    } else {
        (themed_color(fg, theme, true), ground)
    }
}

/// Whether cells are others with the colours of those in a rectangle exchanged, and nothing else.
pub open spec fn recolored(
    before: CellBuffer,
    after: CellBuffer,
    area: Rect,
    pair: spec_fn(Color, Color) -> (Color, Color),
) -> bool {
    &&& after.area == before.area
    &&& after.cells@.len() == before.cells@.len()
    &&& forall|i: int|
        0 <= i < before.cells@.len() ==> #[trigger] after.cells@[i] == (if before.cell_in(i, area) {
            let own = before.cells@[i];
            crate::cells::StyledCell {
                fg: pair(own.fg, own.bg).0,
                bg: pair(own.fg, own.bg).1,
                ..own
            }
        } else {
            before.cells@[i]
        })
}

/// The colours of a cell with another background.
pub open spec fn filled(background: Color) -> spec_fn(Color, Color) -> (Color, Color) {
    |fg: Color, bg: Color| (fg, background)
}

/// The colours of a cell under a theme; the theme that leaves colours to the terminal changes none.
pub open spec fn themed(theme: Theme) -> spec_fn(Color, Color) -> (Color, Color) {
    |fg: Color, bg: Color|
        if theme.name == ThemeName::Classic {
            (fg, bg)
        } else {
            themed_pair(fg, bg, theme)
        }
}

/// Gives the cells of a rectangle a background.
pub fn fill_area(buffer: &mut CellBuffer, area: Rect, background: Color)
    requires
        old(buffer).wf(),
    ensures
        recolored(*old(buffer), *final(buffer), area, filled(background)),
{
    let count: usize = buffer.cells.len();
    let ghost before = *buffer;
    let mut i: usize = 0;
    while i < count
        invariant
            i <= count,
            count == buffer.cells@.len(),
            before.wf(),
            before == *old(buffer),
            buffer.area == before.area,
            count == before.cells@.len(),
            forall|j: int|
                0 <= j < count ==> #[trigger] buffer.cells@[j] == (if j < i && before.cell_in(
                    j,
                    area,
                ) {
                    crate::cells::StyledCell { bg: background, ..before.cells@[j] }
                } else {
                    before.cells@[j]
                }),
        decreases count - i,
    {
        assert(before.area.width > 0) by (nonlinear_arith)
            requires
                i < before.area.width * before.area.height,
                before.area.width >= 0,
        ;
        if buffer.is_cell_in(i, area) {
            let cell = &mut buffer.cells[i];
            cell.bg = background;
        }
        i = i + 1;
    }
}

/// Lays a theme over the cells of a rectangle.
pub fn apply_terminal_theme(buffer: &mut CellBuffer, area: Rect, theme: &Theme)
    requires
        old(buffer).wf(),
    ensures
        recolored(*old(buffer), *final(buffer), area, themed(*theme)),
{
    if theme.name == ThemeName::Classic {
        return;
    }
    let count: usize = buffer.cells.len();
    let ghost before = *buffer;
    let mut i: usize = 0;
    while i < count
        invariant
            i <= count,
            count == buffer.cells@.len(),
            before.wf(),
            before == *old(buffer),
            buffer.area == before.area,
            count == before.cells@.len(),
            theme.name != ThemeName::Classic,
            forall|j: int|
                0 <= j < count ==> #[trigger] buffer.cells@[j] == (if j < i && before.cell_in(
                    j,
                    area,
                ) {
                    let own = before.cells@[j];
                    crate::cells::StyledCell {
                        fg: themed_pair(own.fg, own.bg, *theme).0,
                        bg: themed_pair(own.fg, own.bg, *theme).1,
                        ..own
                    }
                } else {
                    before.cells@[j]
                }),
        decreases count - i,
    {
        assert(before.area.width > 0) by (nonlinear_arith)
            requires
                i < before.area.width * before.area.height,
                before.area.width >= 0,
        ;
        if buffer.is_cell_in(i, area) {
            let cell = &mut buffer.cells[i];
            let ground = map_terminal_color(cell.bg, theme, false);
            let text = if cell.fg == Color::Reset && ground != theme.background {
                theme.contrast_text(ground)
            } else {
                map_terminal_color(cell.fg, theme, true)
            };
            cell.fg = text;
            cell.bg = ground;
        }
        i = i + 1;
    }
}

/// The themes are each listed once, the dark ones are not light, the light ones are, and with the one
/// that leaves colours to the terminal they are all.
pub proof fn law_themes_are_grouped()
    ensures
        forall|i: int, j: int| 0 <= i < j < 10 ==> ThemeName::ALL@[i] != ThemeName::ALL@[j],
        forall|i: int| 0 <= i < 7 ==> !(#[trigger] ThemeName::DARK@[i]).light(),
        forall|i: int| 0 <= i < 2 ==> (#[trigger] ThemeName::LIGHT@[i]).light(),
        ThemeName::ALL@ == seq![ThemeName::Classic] + ThemeName::DARK@ + ThemeName::LIGHT@,
{
    assert(ThemeName::ALL@ =~= seq![ThemeName::Classic] + ThemeName::DARK@ + ThemeName::LIGHT@);
}

proof fn lemma_readable_gruvbox()
    ensures
        readable(palette_of(GRUVBOX@).text, palette_of(GRUVBOX@).bg),
{
    assert(GRUVBOX@[3] == 0xebdbb2 && GRUVBOX@[0] == 0x282828);
    assert(palette_of(GRUVBOX@).text == Color::Rgb(235, 219, 178));
    assert(palette_of(GRUVBOX@).bg == Color::Rgb(40, 40, 40));
    assert(LINEAR_LIGHT@[40] == 21219010);
    assert(LINEAR_LIGHT@[178] == 445201195);
    assert(LINEAR_LIGHT@[219] == 708375780);
    assert(LINEAR_LIGHT@[235] == 830769877);
    assert(luminance(Color::Rgb(235, 219, 178)) == 7153955599852);
    assert(luminance(Color::Rgb(40, 40, 40)) == 212190100000);
}

proof fn lemma_readable_nord()
    ensures
        readable(palette_of(NORD@).text, palette_of(NORD@).bg),
{
    assert(NORD@[3] == 0xeceff4 && NORD@[0] == 0x2e3440);
    assert(palette_of(NORD@).text == Color::Rgb(236, 239, 244));
    assert(palette_of(NORD@).bg == Color::Rgb(46, 52, 64));
    assert(LINEAR_LIGHT@[46] == 27320892);
    assert(LINEAR_LIGHT@[52] == 34339807);
    assert(LINEAR_LIGHT@[64] == 51269458);
    assert(LINEAR_LIGHT@[236] == 838799012);
    assert(LINEAR_LIGHT@[239] == 863157213);
    assert(LINEAR_LIGHT@[244] == 904661174);
    assert(luminance(Color::Rgb(236, 239, 244)) == 8609752454516);
    assert(luminance(Color::Rgb(46, 52, 64)) == 340699064732);
}

proof fn lemma_readable_dracula()
    ensures
        readable(palette_of(DRACULA@).text, palette_of(DRACULA@).bg),
{
    assert(DRACULA@[3] == 0xf8f8f2 && DRACULA@[0] == 0x282a36);
    assert(palette_of(DRACULA@).text == Color::Rgb(248, 248, 242));
    assert(palette_of(DRACULA@).bg == Color::Rgb(40, 42, 54));
    assert(LINEAR_LIGHT@[40] == 21219010);
    assert(LINEAR_LIGHT@[42] == 23153366);
    assert(LINEAR_LIGHT@[54] == 36889450);
    assert(LINEAR_LIGHT@[242] == 887923118);
    assert(LINEAR_LIGHT@[248] == 938685728);
    assert(luminance(Color::Rgb(248, 248, 242)) == 9350206675580);
    assert(luminance(Color::Rgb(40, 42, 54)) == 237338671792);
}

proof fn lemma_readable_catppuccin_mocha()
    ensures
        readable(palette_of(CATPPUCCIN_MOCHA@).text, palette_of(CATPPUCCIN_MOCHA@).bg),
{
    assert(CATPPUCCIN_MOCHA@[3] == 0xcdd6f4 && CATPPUCCIN_MOCHA@[0] == 0x1e1e2e);
    assert(palette_of(CATPPUCCIN_MOCHA@).text == Color::Rgb(205, 214, 244));
    assert(palette_of(CATPPUCCIN_MOCHA@).bg == Color::Rgb(30, 30, 46));
    assert(LINEAR_LIGHT@[30] == 12983032);
    assert(LINEAR_LIGHT@[46] == 27320892);
    assert(LINEAR_LIGHT@[205] == 610495571);
    assert(LINEAR_LIGHT@[214] == 672443157);
    assert(LINEAR_LIGHT@[244] == 904661174);
    assert(luminance(Color::Rgb(205, 214, 244)) == 6760392410438);
    assert(luminance(Color::Rgb(30, 30, 46)) == 140182254920);
}

proof fn lemma_readable_catppuccin_latte()
    ensures
        readable(palette_of(CATPPUCCIN_LATTE@).text, palette_of(CATPPUCCIN_LATTE@).bg),
{
    assert(CATPPUCCIN_LATTE@[3] == 0x4c4f69 && CATPPUCCIN_LATTE@[0] == 0xeff1f5);
    assert(palette_of(CATPPUCCIN_LATTE@).text == Color::Rgb(76, 79, 105));
    assert(palette_of(CATPPUCCIN_LATTE@).bg == Color::Rgb(239, 241, 245));
    assert(LINEAR_LIGHT@[76] == 72271851);
    assert(LINEAR_LIGHT@[79] == 78187422);
    assert(LINEAR_LIGHT@[105] == 141263291);
    assert(LINEAR_LIGHT@[239] == 863157213);
    assert(LINEAR_LIGHT@[241] == 879622397);
    assert(LINEAR_LIGHT@[245] == 913098652);
    assert(luminance(Color::Rgb(76, 79, 105)) == 814838493472);
    assert(luminance(Color::Rgb(239, 241, 245)) == 8785388844926);
}

proof fn lemma_readable_palenight()
    ensures
        readable(palette_of(PALENIGHT@).text, palette_of(PALENIGHT@).bg),
{
    assert(PALENIGHT@[3] == 0xa6accd && PALENIGHT@[0] == 0x292d3e);
    assert(palette_of(PALENIGHT@).text == Color::Rgb(166, 172, 205));
    assert(palette_of(PALENIGHT@).bg == Color::Rgb(41, 45, 62));
    assert(LINEAR_LIGHT@[41] == 22173885);
    assert(LINEAR_LIGHT@[45] == 26241222);
    assert(LINEAR_LIGHT@[62] == 48171824);
    assert(LINEAR_LIGHT@[166] == 381326011);
    assert(LINEAR_LIGHT@[172] == 412542613);
    assert(LINEAR_LIGHT@[205] == 610495571);
    assert(luminance(Color::Rgb(166, 172, 205)) == 4201981669824);
    assert(luminance(Color::Rgb(41, 45, 62)) == 269598956182);
}

proof fn lemma_readable_solarized_dark()
    ensures
        readable(palette_of(SOLARIZED_DARK@).text, palette_of(SOLARIZED_DARK@).bg),
{
    assert(SOLARIZED_DARK@[3] == 0x93a1a1 && SOLARIZED_DARK@[0] == 0x2b36);
    assert(palette_of(SOLARIZED_DARK@).text == Color::Rgb(147, 161, 161));
    assert(palette_of(SOLARIZED_DARK@).bg == Color::Rgb(0, 43, 54));
    assert(LINEAR_LIGHT@[0] == 0);
    assert(LINEAR_LIGHT@[43] == 24157632);
    assert(LINEAR_LIGHT@[54] == 36889450);
    assert(LINEAR_LIGHT@[147] == 291770650);
    assert(LINEAR_LIGHT@[161] == 356400144);
    assert(luminance(Color::Rgb(147, 161, 161)) == 3426599135756);
    assert(luminance(Color::Rgb(0, 43, 54)) == 199409566964);
}

proof fn lemma_readable_solarized_light()
    ensures
        readable(palette_of(SOLARIZED_LIGHT@).text, palette_of(SOLARIZED_LIGHT@).bg),
{
    assert(SOLARIZED_LIGHT@[3] == 0x586e75 && SOLARIZED_LIGHT@[0] == 0xfdf6e3);
    assert(palette_of(SOLARIZED_LIGHT@).text == Color::Rgb(88, 110, 117));
    assert(palette_of(SOLARIZED_LIGHT@).bg == Color::Rgb(253, 246, 227));
    assert(LINEAR_LIGHT@[88] == 97587347);
    assert(LINEAR_LIGHT@[110] == 155926464);
    assert(LINEAR_LIGHT@[117] == 177888416);
    assert(LINEAR_LIGHT@[227] == 768151147);
    assert(LINEAR_LIGHT@[246] == 921581856);
    assert(LINEAR_LIGHT@[253] == 982250550);
    assert(luminance(Color::Rgb(88, 110, 117)) == 1451092206602);
    assert(luminance(Color::Rgb(253, 246, 227)) == 9234023231546);
}

proof fn lemma_readable_tokyo_night()
    ensures
        readable(palette_of(TOKYO_NIGHT@).text, palette_of(TOKYO_NIGHT@).bg),
{
    assert(TOKYO_NIGHT@[3] == 0xa9b1d6 && TOKYO_NIGHT@[0] == 0x1a1b26);
    assert(palette_of(TOKYO_NIGHT@).text == Color::Rgb(169, 177, 214));
    assert(palette_of(TOKYO_NIGHT@).bg == Color::Rgb(26, 27, 38));
    assert(LINEAR_LIGHT@[26] == 10329823);
    assert(LINEAR_LIGHT@[27] == 10960094);
    assert(LINEAR_LIGHT@[38] == 19382361);
    assert(LINEAR_LIGHT@[169] == 396755231);
    assert(LINEAR_LIGHT@[177] == 439657174);
    assert(LINEAR_LIGHT@[214] == 672443157);
    assert(luminance(Color::Rgb(169, 177, 214)) == 4473433688908);
    assert(luminance(Color::Rgb(26, 27, 38)) == 114341860628);
}

/// Every theme other than the one that leaves colours to the terminal shows text that can be read on
/// its background.
pub proof fn law_theme_text_is_readable(name: ThemeName, theme: Theme)
    requires
        name != ThemeName::Classic,
        is_theme_of(name, theme),
    ensures
        readable(theme.text, theme.background),
{
    match name {
        ThemeName::Classic => {},
        ThemeName::Gruvbox => lemma_readable_gruvbox(),
        ThemeName::Nord => lemma_readable_nord(),
        ThemeName::Dracula => lemma_readable_dracula(),
        ThemeName::CatppuccinMocha => lemma_readable_catppuccin_mocha(),
        ThemeName::CatppuccinLatte => lemma_readable_catppuccin_latte(),
        ThemeName::Palenight => lemma_readable_palenight(),
        ThemeName::SolarizedDark => lemma_readable_solarized_dark(),
        ThemeName::SolarizedLight => lemma_readable_solarized_light(),
        ThemeName::TokyoNight => lemma_readable_tokyo_night(),
    }
}

/// Where a program chose a background, text in the terminal's own colour can be read on it, as long as
/// light or dark text can.
pub proof fn law_default_text_stays_readable(theme: Theme, background: Color)
    requires
        readable(plain_contrast(background), background),
    ensures
        readable(text_on(theme, background), background),
{
}

/// Laying a theme over cells leaves the colours alone that a program chose beyond the standard ones.
pub proof fn law_chosen_colors_stay(theme: Theme, r: u8, g: u8, b: u8, index: u8, foreground: bool)
    requires
        index >= 16,
    ensures
        themed_color(Color::Rgb(r, g, b), theme, foreground) == Color::Rgb(r, g, b),
        themed_color(Color::Indexed(index), theme, foreground) == Color::Indexed(index),
{
}

/// A blend begins at the one colour and ends at the other, and lies between them.
pub proof fn law_blends_lie_between(base: u8, tint: u8, percent: int)
    requires
        0 <= percent <= 100,
    ensures
        mixed(base, tint, 0) == base,
        mixed(base, tint, 100) == tint,
        base <= tint ==> base <= mixed(base, tint, percent) <= tint,
        tint <= base ==> tint <= mixed(base, tint, percent) <= base,
{
    let b = base as int;
    let t = tint as int;
    let p = percent;
    let sum = b * (100 - p) + t * p;
    assert(b <= t ==> 100 * b <= sum <= 100 * t) by (nonlinear_arith)
        requires
            0 <= p <= 100,
            sum == b * (100 - p) + t * p,
    ;
    assert(t <= b ==> 100 * t <= sum <= 100 * b) by (nonlinear_arith)
        requires
            0 <= p <= 100,
            sum == b * (100 - p) + t * p,
    ;
}

/// The three parts of a blend are blended each for itself.
pub proof fn law_blends_keep_the_parts_apart(from: (u8, u8, u8), to: (u8, u8, u8), percent: int)
    ensures
        blended(
            Color::Rgb(from.0, from.1, from.2),
            Color::Rgb(to.0, to.1, to.2),
            percent,
        ) == Color::Rgb(
            mixed(from.0, to.0, percent),
            mixed(from.1, to.1, percent),
            mixed(from.2, to.2, percent),
        ),
        blended(Color::Rgb(from.0, from.1, from.2), Color::Reset, 0) == Color::Rgb(
            from.0,
            from.1,
            from.2,
        ),
{
}

/// The numbered colours behind the first sixteen: a cube with six steps a side, red counting most, and
/// then a ladder of greys.
pub proof fn law_numbered_colours(r: int, g: int, b: int, step: int)
    requires
        0 <= r < 6,
        0 <= g < 6,
        0 <= b < 6,
        0 <= step < 24,
    ensures
        ({
            let level = seq![0int, 95, 135, 175, 215, 255];
            indexed_parts((16 + 36 * r + 6 * g + b) as u8) == (
                level[r] as u8,
                level[g] as u8,
                level[b] as u8,
            )
        }),
        indexed_parts((232 + step) as u8) == (
            (8 + 10 * step) as u8,
            (8 + 10 * step) as u8,
            (8 + 10 * step) as u8,
        ),
{
    let value = 36 * r + 6 * g + b;
    assert(value / 36 == r && value % 36 / 6 == g && value % 6 == b);
}

/// A number is read as its red, its green and its blue, from the highest byte down.
pub proof fn law_numbers_are_read_as_colours(r: u8, g: u8, b: u8)
    ensures
        rgb_number((65536 * r + 256 * g + b) as u32) == Color::Rgb(r, g, b),
{
    let n = 65536 * r + 256 * g + b;
    assert(n / 65536 == r && n / 256 % 256 == g && n % 256 == b);
}

/// A named colour is shown as the numbered one that means the same.
pub proof fn law_names_and_numbers_agree(theme: Theme, foreground: bool)
    ensures
        themed_color(Color::Black, theme, foreground) == themed_color(Color::Indexed(0), theme, foreground),
        themed_color(Color::Red, theme, foreground) == themed_color(Color::Indexed(1), theme, foreground),
        themed_color(Color::Green, theme, foreground) == themed_color(Color::Indexed(2), theme, foreground),
        themed_color(Color::Yellow, theme, foreground) == themed_color(Color::Indexed(3), theme, foreground),
        themed_color(Color::Blue, theme, foreground) == themed_color(Color::Indexed(4), theme, foreground),
        themed_color(Color::Magenta, theme, foreground) == themed_color(Color::Indexed(5), theme, foreground),
        themed_color(Color::Cyan, theme, foreground) == themed_color(Color::Indexed(6), theme, foreground),
        themed_color(Color::Gray, theme, foreground) == themed_color(Color::Indexed(7), theme, foreground),
        themed_color(Color::DarkGray, theme, foreground) == themed_color(Color::Indexed(8), theme, foreground),
        themed_color(Color::LightRed, theme, foreground) == themed_color(Color::Indexed(9), theme, foreground),
        themed_color(Color::LightGreen, theme, foreground) == themed_color(
            Color::Indexed(10),
            theme,
            foreground,
        ),
        themed_color(Color::LightYellow, theme, foreground) == themed_color(
            Color::Indexed(11),
            theme,
            foreground,
        ),
        themed_color(Color::LightBlue, theme, foreground) == themed_color(
            Color::Indexed(12),
            theme,
            foreground,
        ),
        themed_color(Color::LightMagenta, theme, foreground) == themed_color(
            Color::Indexed(13),
            theme,
            foreground,
        ),
        themed_color(Color::LightCyan, theme, foreground) == themed_color(
            Color::Indexed(14),
            theme,
            foreground,
        ),
        themed_color(Color::White, theme, foreground) == themed_color(Color::Indexed(15), theme, foreground),
        theme.name != ThemeName::Classic ==> themed_color(Color::Reset, theme, true) == theme.text
            && themed_color(Color::Reset, theme, false) == theme.background,
{
}

/// Contrast is the same both ways round, and plain text is taken from the light and the dark one as the
/// one that stands out more.
pub proof fn law_plain_text_stands_out(a: Color, b: Color, background: Color)
    ensures
        readable(a, b) == readable(b, a),
        ({
            let chosen = seen_light(plain_contrast(background));
            let other = if plain_contrast(background) == Color::Rgb(0xf8, 0xf8, 0xf2) {
                seen_light(Color::Rgb(0x1a, 0x1b, 0x26))
            } else {
                seen_light(Color::Rgb(0xf8, 0xf8, 0xf2))
            };
            let ground = seen_light(background);
            larger(chosen, ground) * smaller(other, ground) >= larger(other, ground) * smaller(
                chosen,
                ground,
            )
        }),
{
}

/// A cell that lies outside the coloured area keeps its look, and one inside keeps its text.
pub proof fn law_only_the_area_is_coloured(
    before: CellBuffer,
    after: CellBuffer,
    area: Rect,
    pair: spec_fn(Color, Color) -> (Color, Color),
    i: int,
)
    requires
        recolored(before, after, area, pair),
        0 <= i < before.cells@.len(),
    ensures
        after.cells@.len() == before.cells@.len(),
        after.cells@[i].symbol == before.cells@[i].symbol && after.cells@[i].modifiers
            == before.cells@[i].modifiers,
        !before.cell_in(i, area) ==> after.cells@[i] == before.cells@[i],
{
}

/// In every theme with colours of its own the sixteen colours of a terminal mean what they are called:
/// red is what tells of errors, green of success, yellow of warnings; and the bright ones are like the
/// others.
pub proof fn law_terminal_colours_mean_what_they_are_called(name: ThemeName, theme: Theme)
    requires
        name != ThemeName::Classic,
        is_theme_of(name, theme),
    ensures
        theme.name == name && theme.is_light == name.light(),
        theme.ansi@.len() == 16,
        theme.ansi@[1] == theme.error && theme.ansi@[2] == theme.success && theme.ansi@[3]
            == theme.warning && theme.ansi@[4] == theme.accent && theme.ansi@[5] == theme.accent
            && theme.ansi@[6] == theme.accent_alt && theme.ansi@[7] == theme.text,
        theme.ansi@[8] == theme.muted,
        forall|i: int| 1 <= i < 8 ==> theme.ansi@[i + 8] == #[trigger] theme.ansi@[i],
        theme.ansi@[0] == (if theme.is_light {
            theme.text
        } else {
            theme.surface
        }),
        theme.selection_bg == theme.accent && theme.selection_fg == plain_contrast(theme.accent),
        theme.diff_add_bg == blended(
            theme.background,
            theme.success,
            if theme.is_light {
                18
            } else {
                25
            },
        ),
        theme.diff_delete_bg == blended(
            theme.background,
            theme.error,
            if theme.is_light {
                16
            } else {
                25
            },
        ),
{
}

/// The classic theme leaves cells as they are, and every other gives those without colours its text on
/// its background.
pub proof fn law_bare_cells_get_the_colours_of_the_theme(theme: Theme, fg: Color, bg: Color)
    ensures
        theme.name == ThemeName::Classic ==> themed(theme)(fg, bg) == (fg, bg),
        theme.name != ThemeName::Classic ==> themed(theme)(Color::Reset, Color::Reset) == (
            theme.text,
            theme.background,
        ),
{
}

/// The backgrounds of changes: what is added is tinted as success, what is taken away as an error and
/// what heads a part as the accent, each more lightly in a light theme; the rest is the background.
pub proof fn law_changes_are_tinted_by_their_kind(name: ThemeName, theme: Theme)
    requires
        name != ThemeName::Classic,
        is_theme_of(name, theme),
    ensures
        theme.diff_hunk_bg == blended(
            theme.background,
            theme.accent,
            if theme.is_light {
                14
            } else {
                30
            },
        ),
        theme.diff_context_bg == theme.background,
        theme.diff_meta_bg == theme.chrome_bg,
        theme.diff_code_fg == theme.text,
        theme.diff_gutter_fg == theme.muted,
        theme.info == theme.accent_alt && theme.inactive == theme.muted && theme.directory
            == theme.accent_alt,
        theme.syntax_theme@ == (if theme.is_light {
            "inspired-github"@
        } else {
            "dracula"@
        }),
{
}

} // verus!
