//! Pictures of screens, and the sessions they show.

use copilot_session_tui::cells::{CellBuffer, Color, Modifiers, StyledCell};
use copilot_session_tui::input::Rect;
use copilot_session_tui::screenshots::{demo_sessions, OLDEST_MINUTES};
use copilot_session_tui::screenshots::svg::{
    collect_runs, color_hex, escape, indexed, render, resolved, BACKGROUND, PALETTE,
};
use copilot_session_tui::session::Timestamp;

fn buffer_with(lines: &[&str]) -> CellBuffer {
    let width = lines.iter().map(|line| line.chars().count()).max().unwrap_or(0) as u16;
    let mut cells = Vec::new();
    for line in lines {
        let mut symbols: Vec<String> = line.chars().map(|c| c.to_string()).collect();
        symbols.resize(width as usize, " ".to_string());
        for symbol in symbols {
            cells.push(StyledCell {
                symbol,
                fg: Color::Reset,
                bg: Color::Reset,
                modifiers: Modifiers::plain(),
            });
        }
    }
    CellBuffer { area: Rect { x: 0, y: 0, width, height: lines.len() as u16 }, cells }
}

#[test]
fn markup_special_characters_survive_as_entities() {
    let svg = render(&buffer_with(&["<a> & \"b\""]));

    assert!(svg.contains("&lt;a&gt; &amp; &quot;b&quot;"), "{svg}");
    assert!(!svg.contains(">a<"), "{svg}");
}

#[test]
fn adjacent_cells_of_one_style_become_a_single_run() {
    let svg = render(&buffer_with(&["hello"]));

    assert_eq!(svg.matches("<text").count(), 1, "{svg}");
    assert!(svg.contains(">hello</text>"), "{svg}");
}

#[test]
fn a_style_change_starts_a_new_run() {
    let mut buffer = buffer_with(&["ab"]);
    buffer.cells[1].fg = Color::Red;

    let svg = render(&buffer);

    assert_eq!(svg.matches("<text").count(), 2, "{svg}");
    assert!(svg.contains("#f38ba8"), "{svg}");
}

#[test]
fn reversed_cells_swap_foreground_and_background() {
    let mut buffer = buffer_with(&["x"]);
    buffer.cells[0].fg = Color::Green;
    buffer.cells[0].modifiers = Modifiers { reversed: true, ..Modifiers::plain() };

    let svg = render(&buffer);

    // Green becomes the fill of the rect, and the glyph takes the canvas color.
    assert!(svg.contains(r##"fill="#a6e3a1" shape-rendering"##), "{svg}");
    assert!(svg.contains(r##"fill="#11111b" textLength"##), "{svg}");
}

#[test]
fn rule_runs_stretch_their_glyphs_so_borders_stay_unbroken() {
    let buffer = buffer_with(&["──", "ab"]);

    let svg = render(&buffer);

    // Padding the gaps between box-drawing glyphs would turn a border into a dashed line, so those
    // runs scale the glyphs instead.
    assert!(svg.contains(r#"lengthAdjust="spacingAndGlyphs""#), "{svg}");
    assert!(svg.contains(r#"lengthAdjust="spacing""#), "{svg}");
}

#[test]
fn the_default_background_is_left_to_the_canvas() {
    let svg = render(&buffer_with(&["ab"]));

    // Only the rounded canvas rect, no per-cell fills.
    assert_eq!(svg.matches("<rect").count(), 1, "{svg}");
}

#[test]
fn indexed_colors_follow_the_xterm_cube() {
    assert_eq!(indexed(16), "#000000");
    assert_eq!(indexed(231), "#ffffff");
    assert_eq!(indexed(232), "#080808");
    assert_eq!(indexed(1), "#f38ba8");
    assert_eq!(indexed(1), color_hex(PALETTE[1]));
}

#[test]
fn the_canvas_is_sized_from_the_grid() {
    let svg = render(&buffer_with(&["abc", "def"]));

    let width = 16.0 * 2.0 + 3.0 * 9.0;
    let height = 16.0 * 2.0 + 2.0 * 18.0;
    assert!(svg.contains(&format!(r#"width="{width:.0}""#)), "{svg}");
    assert!(svg.contains(&format!(r#"height="{height:.0}""#)), "{svg}");
}

#[test]
fn a_row_is_its_runs_with_the_spaces_between() {
    let mut buffer = buffer_with(&["ab cd"]);
    buffer.cells[3].modifiers = Modifiers { bold: true, ..Modifiers::plain() };
    let runs = collect_runs(&buffer, 0);
    let texts: Vec<&str> = runs.iter().map(|run| run.text.as_str()).collect();
    assert_eq!(texts, ["ab ", "c", "d"]);
    assert_eq!(escape("a<b"), "a&lt;b");
    assert_eq!(escape("&amp;"), "&amp;amp;");
    assert_eq!(escape("\"'>"), "&quot;&apos;&gt;");
    assert_eq!(escape("a<") + &escape(">b"), escape("a<>b"));
    let plain = buffer_with(&["x"]);
    assert_eq!(resolved(&plain.cells[0]).1, BACKGROUND);
}

#[test]
fn the_invented_sessions_are_recent_and_named() {
    let now = Timestamp { seconds: 1_800_000_000, nanos: 0 };
    let sessions = demo_sessions(now);
    assert_eq!(sessions.len(), 11);
    for session in &sessions {
        assert!(session.summary.is_some());
        assert!(session.last_touched().unwrap().is_before(&Timestamp { seconds: 1_800_000_001, nanos: 0 }));
    }

    let first = Timestamp { seconds: -8_334_601_228_800, nanos: 0 };
    let early = Timestamp { seconds: first.seconds + OLDEST_MINUTES * 60, nanos: 0 };
    let sessions = demo_sessions(early);
    assert_eq!(sessions.iter().filter_map(|s| s.created_at).min_by_key(|at| at.seconds), Some(first));
    let leap = Timestamp { seconds: 1_483_228_799, nanos: 1_500_000_000 };
    let touched = demo_sessions(leap)[0].updated_at;
    assert_eq!(touched, Some(Timestamp { seconds: 1_483_228_560, nanos: 500_000_000 }));
}
