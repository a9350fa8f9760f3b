//! Themes, contrast, and colours of programs inside a pane.

use copilot_session_tui::cells::{CellBuffer, Color, Modifiers, StyledCell};
use copilot_session_tui::input::Rect;
use copilot_session_tui::theme::{
    apply_terminal_theme, best_contrast_text, blend, fill_area, is_readable, rgb_components,
    ThemeName,
};
use std::collections::HashSet;

fn rgb(r: u8, g: u8, b: u8) -> Color {
    Color::Rgb(r, g, b)
}

fn contrast_ratio(a: Color, b: Color) -> f64 {
    let luminance = |color| {
        let (r, g, b) = rgb_components(color).unwrap_or((0, 0, 0));
        let channel = |value: u8| {
            let value = f64::from(value) / 255.0;
            if value <= 0.04045 {
                value / 12.92
            } else {
                ((value + 0.055) / 1.055).powf(2.4)
            }
        };
        0.2126 * channel(r) + 0.7152 * channel(g) + 0.0722 * channel(b)
    };
    let a: f64 = luminance(a);
    let b: f64 = luminance(b);
    (a.max(b) + 0.05) / (a.min(b) + 0.05)
}

fn empty(width: u16, height: u16) -> CellBuffer {
    let cells = (0..width as usize * height as usize)
        .map(|_| StyledCell {
            symbol: " ".to_string(),
            fg: Color::Reset,
            bg: Color::Reset,
            modifiers: Modifiers::plain(),
        })
        .collect();
    CellBuffer { area: Rect { x: 0, y: 0, width, height }, cells }
}

#[test]
fn theme_names_are_stable_unique_and_grouped() {
    assert_eq!(ThemeName::ALL.len(), 10);
    assert_eq!(
        ThemeName::ALL.iter().copied().collect::<HashSet<_>>().len(),
        ThemeName::ALL.len()
    );
    assert!(ThemeName::DARK.iter().all(|name| !name.is_light()));
    assert!(ThemeName::LIGHT.iter().all(|name| name.is_light()));
}

#[test]
fn the_first_theme_is_the_default() {
    assert_eq!(ThemeName::default(), ThemeName::Classic);
}

#[test]
fn primary_text_has_readable_contrast_in_rgb_themes() {
    for name in ThemeName::ALL.into_iter().filter(|name| *name != ThemeName::Classic) {
        let theme = name.theme();
        assert!(
            contrast_ratio(theme.text, theme.background) >= 4.5,
            "{} text contrast is {}",
            name.label(),
            contrast_ratio(theme.text, theme.background)
        );
        assert_eq!(theme.ansi.len(), 16);
        assert!(
            contrast_ratio(theme.selection_fg, theme.selection_bg) >= 3.0,
            "{} selection contrast is {}",
            name.label(),
            contrast_ratio(theme.selection_fg, theme.selection_bg)
        );
        if theme.is_light {
            assert!(
                contrast_ratio(theme.muted, theme.surface) >= 4.5,
                "{} muted surface contrast is {}",
                name.label(),
                contrast_ratio(theme.muted, theme.surface)
            );
        }
        assert!(!theme.syntax_theme.is_empty());
    }
}

#[test]
fn readability_agrees_with_the_contrast_ratio() {
    for r in (0u16..256).step_by(51) {
        for g in (0u16..256).step_by(17) {
            for b in (0u16..256).step_by(51) {
                let background = rgb(r as u8, g as u8, b as u8);
                for name in ThemeName::ALL.into_iter().filter(|name| *name != ThemeName::Classic) {
                    let text = name.theme().text;
                    assert_eq!(
                        is_readable(text, background),
                        contrast_ratio(text, background) >= 4.5,
                        "{} on {background:?}",
                        name.label()
                    );
                }
                let light = rgb(0xf8, 0xf8, 0xf2);
                let dark = rgb(0x1a, 0x1b, 0x26);
                let best = if contrast_ratio(light, background) >= contrast_ratio(dark, background)
                {
                    light
                } else {
                    dark
                };
                assert_eq!(best_contrast_text(background), best, "{background:?}");
            }
        }
    }
}

#[test]
fn light_themes_choose_dark_default_text() {
    for name in ThemeName::LIGHT {
        let theme = name.theme();
        assert!(theme.is_light);
        let Color::Rgb(r, g, b) = theme.text else {
            panic!("light theme text must be RGB");
        };
        assert!(u16::from(r) + u16::from(g) + u16::from(b) < 384);
    }
}

#[test]
fn named_themes_report_appearance_but_classic_inherits_the_terminal() {
    assert_eq!(ThemeName::Classic.terminal_light_mode(), None);
    assert_eq!(ThemeName::CatppuccinLatte.terminal_light_mode(), Some(true));
    assert_eq!(ThemeName::SolarizedLight.terminal_light_mode(), Some(true));
    assert_eq!(ThemeName::Gruvbox.terminal_light_mode(), Some(false));
}

#[test]
fn terminal_mapping_preserves_modifiers_high_colors_and_rgb() {
    let theme = ThemeName::CatppuccinLatte.theme();
    let mut buffer = empty(4, 1);
    buffer.cells[0].symbol = "A".to_string();
    buffer.cells[0].modifiers = Modifiers { bold: true, italic: true, ..Modifiers::plain() };
    buffer.cells[1].symbol = "B".to_string();
    buffer.cells[1].fg = Color::Indexed(1);
    buffer.cells[1].bg = Color::Indexed(2);
    buffer.cells[1].modifiers = Modifiers { underlined: true, ..Modifiers::plain() };
    buffer.cells[2].fg = Color::Indexed(42);
    buffer.cells[2].bg = Color::Indexed(200);
    buffer.cells[3].fg = rgb(1, 2, 3);
    buffer.cells[3].bg = rgb(4, 5, 6);

    let area = buffer.area;
    apply_terminal_theme(&mut buffer, area, &theme);

    assert_eq!(buffer.cells[0].fg, theme.text);
    assert_eq!(buffer.cells[0].bg, theme.background);
    assert!(buffer.cells[0].modifiers.bold);
    assert!(buffer.cells[0].modifiers.italic);
    assert_eq!(buffer.cells[1].fg, theme.ansi[1]);
    assert_eq!(buffer.cells[1].bg, theme.ansi[2]);
    assert!(buffer.cells[1].modifiers.underlined);
    assert_eq!(buffer.cells[2].fg, Color::Indexed(42));
    assert_eq!(buffer.cells[2].bg, Color::Indexed(200));
    assert_eq!(buffer.cells[3].fg, rgb(1, 2, 3));
    assert_eq!(buffer.cells[3].bg, rgb(4, 5, 6));
}

#[test]
fn default_text_stays_readable_on_an_explicit_dark_code_background() {
    let theme = ThemeName::SolarizedLight.theme();
    let code_background = rgb(18, 52, 31);
    let mut buffer = empty(1, 1);
    buffer.cells[0].bg = code_background;

    let area = buffer.area;
    apply_terminal_theme(&mut buffer, area, &theme);

    assert_eq!(buffer.cells[0].bg, code_background);
    assert!(contrast_ratio(buffer.cells[0].fg, code_background) >= 4.5);
}

#[test]
fn default_text_uses_actual_high_index_background_for_contrast() {
    let theme = ThemeName::SolarizedLight.theme();
    let mut buffer = empty(1, 1);
    buffer.cells[0].bg = Color::Indexed(42);

    apply_terminal_theme(&mut buffer, Rect { x: 0, y: 0, width: 1, height: 1 }, &theme);

    assert_eq!(buffer.cells[0].bg, Color::Indexed(42));
    assert!(contrast_ratio(buffer.cells[0].fg, Color::Indexed(42)) >= 4.5);
}

#[test]
fn reverse_video_keeps_the_mapped_pair_readable() {
    let theme = ThemeName::SolarizedLight.theme();
    let background = rgb(18, 52, 31);
    let mut buffer = empty(1, 1);
    buffer.cells[0].bg = background;
    buffer.cells[0].modifiers = Modifiers { reversed: true, ..Modifiers::plain() };

    apply_terminal_theme(&mut buffer, Rect { x: 0, y: 0, width: 1, height: 1 }, &theme);

    assert!(buffer.cells[0].modifiers.reversed);
    assert!(contrast_ratio(buffer.cells[0].fg, buffer.cells[0].bg) >= 4.5);
}

#[test]
fn classic_leaves_terminal_defaults_untouched() {
    let mut buffer = empty(1, 1);
    apply_terminal_theme(
        &mut buffer,
        Rect { x: 0, y: 0, width: 1, height: 1 },
        &ThemeName::Classic.theme(),
    );
    assert_eq!(buffer.cells[0].fg, Color::Reset);
    assert_eq!(buffer.cells[0].bg, Color::Reset);
}

#[test]
fn named_empty_cell_cursor_color_uses_the_theme_ansi_palette() {
    let theme = ThemeName::CatppuccinLatte.theme();
    let mut buffer = empty(1, 1);
    buffer.cells[0].fg = Color::Gray;

    apply_terminal_theme(&mut buffer, Rect { x: 0, y: 0, width: 1, height: 1 }, &theme);

    assert_eq!(buffer.cells[0].fg, theme.ansi[7]);
    assert_eq!(buffer.cells[0].bg, theme.background);
}

#[test]
fn terminal_mapping_stays_below_a_frame_budget_at_large_pane_size() {
    let mut buffer = empty(240, 70);
    let area = buffer.area;
    let started = std::time::Instant::now();
    for _ in 0..100 {
        apply_terminal_theme(&mut buffer, area, &ThemeName::CatppuccinLatte.theme());
    }
    assert!(
        started.elapsed() < std::time::Duration::from_secs(1),
        "100 visible-cell passes took {:?}",
        started.elapsed()
    );
}

#[test]
fn only_the_area_is_filled() {
    let mut buffer = empty(2, 2);
    fill_area(&mut buffer, Rect { x: 1, y: 0, width: 5, height: 1 }, Color::Blue);
    let backgrounds: Vec<Color> = buffer.cells.iter().map(|cell| cell.bg).collect();
    assert_eq!(backgrounds, [Color::Reset, Color::Blue, Color::Reset, Color::Reset]);
}

#[test]
fn a_blend_lies_between_its_colours() {
    assert_eq!(blend(rgb(0, 0, 0), rgb(200, 100, 50), 50), rgb(100, 50, 25));
    assert_eq!(blend(rgb(10, 20, 30), rgb(200, 100, 50), 0), rgb(10, 20, 30));
    assert_eq!(blend(rgb(10, 20, 30), rgb(200, 100, 50), 100), rgb(200, 100, 50));
}
