//! A screen as a picture that stands alone.

use crate::cells::{CellBuffer, Color, StyledCell};
use crate::hashing::hex_char;
use crate::strings::{append_text, chars_of, decimal_text, has_prefix, trimmed};
use vstd::prelude::*;

verus! {

/// The colour behind everything.
pub const BACKGROUND: u32 = 0x11111b;

/// The colour of text that has none of its own.
pub const FOREGROUND: u32 = 0xcdd6f4;

/// The sixteen standard colours.
pub const PALETTE: [u32; 16] = [
    0x45475a, 0xf38ba8, 0xa6e3a1, 0xf9e2af, 0x89b4fa, 0xcba6f7, 0x94e2d5, 0xbac2de,
    0x585b70, 0xf38ba8, 0xa6e3a1, 0xf9e2af, 0x89b4fa, 0xcba6f7, 0x94e2d5, 0xcdd6f4,
];

/// A colour as a hash sign and six hexadecimal digits.
pub open spec fn color_text(n: u32) -> Seq<char> {
    seq![
        '#',
        crate::hashing::hex_digit((n / 1048576 % 16) as int),
        crate::hashing::hex_digit((n / 65536 % 16) as int),
        crate::hashing::hex_digit((n / 4096 % 16) as int),
        crate::hashing::hex_digit((n / 256 % 16) as int),
        crate::hashing::hex_digit((n / 16 % 16) as int),
        crate::hashing::hex_digit((n % 16) as int),
    ]
}

/// A colour as a hash sign and six hexadecimal digits.
pub fn color_hex(n: u32) -> (text: String)
    ensures
        text@ == color_text(n),
{
    let mut text = String::new();
    text.push('#');
    text.push(hex_char((n / 1048576 % 16) as u8));
    text.push(hex_char((n / 65536 % 16) as u8));
    text.push(hex_char((n / 4096 % 16) as u8));
    text.push(hex_char((n / 256 % 16) as u8));
    text.push(hex_char((n / 16 % 16) as u8));
    text.push(hex_char((n % 16) as u8));
    assert(text@ =~= color_text(n));
    text
}

/// A colour by its parts.
pub open spec fn from_parts(r: int, g: int, b: int) -> u32 {
    (r * 65536 + g * 256 + b) as u32
}

/// An indexed colour: the sixteen standard ones, a cube with six steps to each side, a ramp of grays.
pub open spec fn indexed_color(n: u8) -> u32 {
    if n < 16 {
        PALETTE@[n as int]
    } else if n < 232 {
        from_parts(
            crate::theme::cube_level((n - 16) / 36),
            crate::theme::cube_level((n - 16) % 36 / 6),
            crate::theme::cube_level((n - 16) % 6),
        )
    } else {
        from_parts(8 + (n - 232) * 10, 8 + (n - 232) * 10, 8 + (n - 232) * 10)
    }
}

/// A colour of a cell, or another for the terminal's own.
pub open spec fn picture_color(color: Color, default: u32) -> u32 {
    match color {
        Color::Reset => default,
        Color::Rgb(r, g, b) => from_parts(r as int, g as int, b as int),
        Color::Indexed(n) => indexed_color(n),
        Color::Black => PALETTE@[0],
        Color::Red => PALETTE@[1],
        Color::Green => PALETTE@[2],
        Color::Yellow => PALETTE@[3],
        Color::Blue => PALETTE@[4],
        Color::Magenta => PALETTE@[5],
        Color::Cyan => PALETTE@[6],
        Color::Gray => PALETTE@[7],
        Color::DarkGray => PALETTE@[8],
        Color::LightRed => PALETTE@[9],
        Color::LightGreen => PALETTE@[10],
        Color::LightYellow => PALETTE@[11],
        Color::LightBlue => PALETTE@[12],
        Color::LightMagenta => PALETTE@[13],
        Color::LightCyan => PALETTE@[14],
        Color::White => PALETTE@[15],
    }
}

fn level(step: u8) -> (value: u32)
    requires
        step < 6,
    ensures
        value == crate::theme::cube_level(step as int),
        value <= 255,
{
    if step == 0 {
        0
    } else {
        55 + step as u32 * 40
    }
}

fn indexed_number(n: u8) -> (color: u32)
    ensures
        color == indexed_color(n),
{
    if n < 16 {
        PALETTE[n as usize]
    } else if n < 232 {
        let value: u8 = n - 16;
        level(value / 36) * 65536 + level(value % 36 / 6) * 256 + level(value % 6)
    } else {
        let gray: u32 = 8 + (n as u32 - 232) * 10;
        gray * 65536 + gray * 256 + gray
    }
}

/// An indexed colour, as text.
pub fn indexed(n: u8) -> (text: String)
    ensures
        text@ == color_text(indexed_color(n)),
{
    color_hex(indexed_number(n))
}

fn number_of(color: Color, default: u32) -> (n: u32)
    ensures
        n == picture_color(color, default),
{
    match color {
        Color::Reset => default,
        Color::Rgb(r, g, b) => r as u32 * 65536 + g as u32 * 256 + b as u32,
        Color::Indexed(n) => indexed_number(n),
        Color::Black => PALETTE[0],
        Color::Red => PALETTE[1],
        Color::Green => PALETTE[2],
        Color::Yellow => PALETTE[3],
        Color::Blue => PALETTE[4],
        Color::Magenta => PALETTE[5],
        Color::Cyan => PALETTE[6],
        Color::Gray => PALETTE[7],
        Color::DarkGray => PALETTE[8],
        Color::LightRed => PALETTE[9],
        Color::LightGreen => PALETTE[10],
        Color::LightYellow => PALETTE[11],
        Color::LightBlue => PALETTE[12],
        Color::LightMagenta => PALETTE[13],
        Color::LightCyan => PALETTE[14],
        Color::White => PALETTE[15],
    }
}

/// The colours that a cell shows: of its text, and behind it.
pub open spec fn shown_colors(cell: StyledCell) -> (u32, u32) {
    let fg = picture_color(cell.fg, FOREGROUND);
    let bg = picture_color(cell.bg, BACKGROUND);
    if cell.modifiers.reversed {
        (bg, fg)
    } else {
        (fg, bg)
    }
}

/// The colours that a cell shows.
pub fn resolved(cell: &StyledCell) -> (colors: (u32, u32))
    ensures
        colors == shown_colors(*cell),
{
    let fg: u32 = number_of(cell.fg, FOREGROUND);
    let bg: u32 = number_of(cell.bg, BACKGROUND);
    if cell.modifiers.reversed {
        (bg, fg)
    } else {
        (fg, bg)
    }
}

/// Whether a character draws a line or a block, and has to meet the next without a gap.
pub open spec fn rule_char(c: char) -> bool {
    '\u{2500}' <= c && c <= '\u{259f}'
}

/// What a character is written as.
pub open spec fn entity(c: char) -> Seq<char> {
    if c == '&' {
        "&amp;"@
    } else if c == '<' {
        "&lt;"@
    } else if c == '>' {
        "&gt;"@
    } else if c == '"' {
        "&quot;"@
    } else if c == '\'' {
        "&apos;"@
    } else {
        seq![c]
    }
}

/// A text with the characters written out that mean something in a picture.
pub open spec fn escaped(text: Seq<char>) -> Seq<char>
    decreases text.len(),
{
    if text.len() == 0 {
        Seq::empty()
    } else {
        escaped(text.drop_last()) + entity(text.last())
    }
}

/// A text with the characters written out that mean something in a picture.
pub fn escape(text: &str) -> (r: String)
    ensures
        r@ == escaped(text@),
{
    let chars = chars_of(text);
    let mut r = String::new();
    let mut i: usize = 0;
    while i < chars.len()
        invariant
            i <= chars@.len(),
            chars@ == text@,
            r@ == escaped(text@.take(i as int)),
        decreases chars@.len() - i,
    {
        proof {
            assert(text@.take(i + 1).drop_last() == text@.take(i as int));
        }
        let c = chars[i];
        if c == '&' {
            append_text(&mut r, "&amp;");
        } else if c == '<' {
            append_text(&mut r, "&lt;");
        } else if c == '>' {
            append_text(&mut r, "&gt;");
        } else if c == '"' {
            append_text(&mut r, "&quot;");
        } else if c == '\'' {
            append_text(&mut r, "&apos;");
        } else {
            let ghost before = r@;
            r.push(c);
            assert(r@ =~= before + entity(c));
        }
        i = i + 1;
    }
    assert(text@.take(i as int) == text@);
    r
}

/// A number with a decimal place that is zero.
pub open spec fn whole(n: int) -> Seq<char> {
    crate::strings::decimal(n as nat) + ".0"@
}

/// A number and a half.
pub open spec fn and_a_half(n: int) -> Seq<char> {
    crate::strings::decimal(n as nat) + ".5"@
}

fn append_whole(text: &mut String, n: u64)
    ensures
        final(text)@ == old(text)@ + whole(n as int),
{
    let ghost before = text@;
    append_text(text, decimal_text(n).as_str());
    append_text(text, ".0");
    assert(text@ =~= before + whole(n as int));
}

fn append_half(text: &mut String, n: u64)
    ensures
        final(text)@ == old(text)@ + and_a_half(n as int),
{
    let ghost before = text@;
    append_text(text, decimal_text(n).as_str());
    append_text(text, ".5");
    assert(text@ =~= before + and_a_half(n as int));
}

/// Where a column begins. A cell is 9 units wide and 18 high, and lies 16 from the edge.
pub open spec fn column_at(x: int) -> int {
    16 + x * 9
}

/// Where a row begins.
pub open spec fn row_at(y: int) -> int {
    16 + y * 18
}

/// A stretch of cells with a background of their own.
pub open spec fn background_rect(x: int, y: int, width: int, fill: u32) -> Seq<char> {
    "<rect x=\""@ + whole(column_at(x)) + "\" y=\""@ + whole(row_at(y)) + "\" width=\""@ + whole(
        width * 9,
    ) + "\" height=\"18.0\" fill=\""@ + color_text(fill)
        + "\" shape-rendering=\"crispEdges\"/>\n"@
}

fn append_background_rect(svg: &mut String, x: u16, y: u16, width: u16, fill: u32)
    ensures
        final(svg)@ == old(svg)@ + background_rect(x as int, y as int, width as int, fill),
{
    let ghost before = svg@;
    append_text(svg, "<rect x=\"");
    append_whole(svg, 16 + x as u64 * 9);
    append_text(svg, "\" y=\"");
    append_whole(svg, 16 + y as u64 * 18);
    append_text(svg, "\" width=\"");
    append_whole(svg, width as u64 * 9);
    append_text(svg, "\" height=\"18.0\" fill=\"");
    append_text(svg, color_hex(fill).as_str());
    append_text(svg, "\" shape-rendering=\"crispEdges\"/>\n");
    assert(svg@ =~= before + background_rect(x as int, y as int, width as int, fill));
}

/// Where a stretch of one fill ends.
pub open spec fn fill_end(fills: Seq<u32>, x: int, fill: u32) -> int
    decreases fills.len() - x,
{
    if 0 <= x < fills.len() && fills[x] == fill {
        fill_end(fills, x + 1, fill)
    } else {
        x
    }
}

/// The backgrounds of a row from a column on: one stretch for each run of cells with the same, none
/// where the picture's own shows.
pub open spec fn row_backgrounds(fills: Seq<u32>, x: int, y: int) -> Seq<char>
    decreases fills.len() - x,
{
    if x < 0 || x >= fills.len() {
        Seq::empty()
    } else if fills[x] == BACKGROUND {
        row_backgrounds(fills, x + 1, y)
    } else {
        let end = fill_end(fills, x, fills[x]);
        if end <= x || end > fills.len() {
            Seq::empty()
        } else {
            background_rect(x, y, end - x, fills[x]) + row_backgrounds(fills, end, y)
        }
    }
}

/// Whether a screen begins at its origin, which the columns and rows of a picture are counted from.
pub open spec fn at_origin(buffer: CellBuffer) -> bool {
    buffer.wf() && buffer.area.x == 0 && buffer.area.y == 0
}

/// The cells of a row.
pub open spec fn row_cells(buffer: CellBuffer, y: int) -> Seq<StyledCell> {
    buffer.cells@.subrange(y * buffer.area.width, (y + 1) * buffer.area.width)
}

/// What lies behind the cells of a row.
pub open spec fn row_fills(buffer: CellBuffer, y: int) -> Seq<u32> {
    row_cells(buffer, y).map_values(|c: StyledCell| shown_colors(c).1)
}

/// The backgrounds of the first rows.
pub open spec fn backgrounds(buffer: CellBuffer, rows: int) -> Seq<char>
    decreases rows,
{
    if rows <= 0 {
        Seq::empty()
    } else {
        backgrounds(buffer, rows - 1) + row_backgrounds(row_fills(buffer, rows - 1), 0, rows - 1)
    }
}

proof fn lemma_row(buffer: CellBuffer, y: int)
    requires
        buffer.wf(),
        0 <= y < buffer.area.height,
    ensures
        0 <= y * buffer.area.width,
        (y + 1) * buffer.area.width == y * buffer.area.width + buffer.area.width,
        (y + 1) * buffer.area.width <= buffer.cells@.len(),
        row_cells(buffer, y).len() == buffer.area.width,
        forall|x: int|
            0 <= x < buffer.area.width ==> #[trigger] row_cells(buffer, y)[x] == buffer.cells@[y
                * buffer.area.width + x],
{
    let w = buffer.area.width as int;
    let h = buffer.area.height as int;
    assert((y + 1) * w == y * w + w) by (nonlinear_arith);
    assert((y + 1) * w <= w * h) by (nonlinear_arith)
        requires
            0 <= y,
            y + 1 <= h,
            w >= 0,
    ;
    assert(0 <= y * w) by (nonlinear_arith)
        requires
            y >= 0,
            w >= 0,
    ;
}

fn fills_of_row(buffer: &CellBuffer, y: u16) -> (fills: Vec<u32>)
    requires
        buffer.wf(),
        y < buffer.area.height,
    ensures
        fills@ == row_fills(*buffer, y as int),
{
    proof {
        lemma_row(*buffer, y as int);
    }
    let width: usize = buffer.area.width as usize;
    let start: usize = start_of_row(buffer, y);
    let count: usize = buffer.cells.len();
    let mut fills: Vec<u32> = Vec::new();
    let mut x: usize = 0;
    while x < width
        invariant
            x <= width,
            width == buffer.area.width,
            buffer.wf(),
            y < buffer.area.height,
            start == y * buffer.area.width,
            count == buffer.cells@.len(),
            start + width <= count,
            fills@ == row_fills(*buffer, y as int).take(x as int),
            row_cells(*buffer, y as int).len() == width,
        decreases width - x,
    {
        proof {
            lemma_row(*buffer, y as int);
        }
        fills.push(resolved(&buffer.cells[start + x]).1);
        assert(row_cells(*buffer, y as int)[x as int] == buffer.cells@[start + x]);
        assert(fills@ =~= row_fills(*buffer, y as int).take(x + 1));
        x = x + 1;
    }
    assert(row_fills(*buffer, y as int).take(x as int) == row_fills(*buffer, y as int));
    fills
}

fn start_of_row(buffer: &CellBuffer, y: u16) -> (start: usize)
    requires
        buffer.wf(),
        y < buffer.area.height,
    ensures
        start == y * buffer.area.width,
{
    proof {
        lemma_row(*buffer, y as int);
    }
    let count: usize = buffer.cells.len();
    assert(y as int * buffer.area.width as int <= count);
    assert(y as u64 as int * buffer.area.width as u64 as int <= 0xffff * 0xffff) by (nonlinear_arith)
        requires
            y <= 0xffff,
            buffer.area.width <= 0xffff,
    ;
    (y as u64 * buffer.area.width as u64) as usize
}

fn write_row_backgrounds(svg: &mut String, fills: &Vec<u32>, y: u16)
    requires
        fills@.len() <= u16::MAX,
    ensures
        final(svg)@ == old(svg)@ + row_backgrounds(fills@, 0, y as int),
{
    let ghost before = svg@;
    let count: usize = fills.len();
    let mut x: usize = 0;
    while x < count
        invariant
            x <= count,
            count == fills@.len(),
            count <= u16::MAX,
            svg@ + row_backgrounds(fills@, x as int, y as int) == before + row_backgrounds(
                fills@,
                0,
                y as int,
            ),
        decreases count - x,
    {
        let fill: u32 = fills[x];
        if fill == BACKGROUND {
            x = x + 1;
        } else {
            let start: usize = x;
            let mut end: usize = x;
            while end < count && fills[end] == fill
                invariant
                    start <= end <= count,
                    count == fills@.len(),
                    fill == fills@[start as int],
                    start < count,
                    fill_end(fills@, start as int, fill) == fill_end(fills@, end as int, fill),
                decreases count - end,
            {
                end = end + 1;
            }
            proof {
                assert(fill_end(fills@, start as int, fill) == end);
                assert(fill_end(fills@, start as int, fill) == fill_end(
                    fills@,
                    start + 1,
                    fill,
                ));
                lemma_fill_end(fills@, start + 1, fill);
            }
            let ghost so_far = svg@;
            append_background_rect(svg, start as u16, y, (end - start) as u16, fill);
            proof {
                let rect = background_rect(start as int, y as int, end - start, fill);
                let rest = row_backgrounds(fills@, end as int, y as int);
                assert(so_far + (rect + rest) =~= (so_far + rect) + rest);
            }
            x = end;
        }
    }
    assert(svg@ + Seq::<char>::empty() =~= svg@);
}

proof fn lemma_fill_end(fills: Seq<u32>, x: int, fill: u32)
    requires
        0 <= x,
    ensures
        fill_end(fills, x, fill) >= x,
    decreases fills.len() - x,
{
    if x < fills.len() && fills[x] == fill {
        lemma_fill_end(fills, x + 1, fill);
    }
}

fn write_backgrounds(svg: &mut String, buffer: &CellBuffer)
    requires
        buffer.wf(),
    ensures
        final(svg)@ == old(svg)@ + backgrounds(*buffer, buffer.area.height as int),
{
    let ghost before = svg@;
    let mut y: u16 = 0;
    assert(before + Seq::<char>::empty() =~= before);
    while y < buffer.area.height
        invariant
            y <= buffer.area.height,
            buffer.wf(),
            svg@ == before + backgrounds(*buffer, y as int),
        decreases buffer.area.height - y,
    {
        proof {
            lemma_row(*buffer, y as int);
        }
        let fills = fills_of_row(buffer, y);
        let ghost so_far = svg@;
        write_row_backgrounds(svg, &fills, y);
        proof {
            let done = backgrounds(*buffer, y as int);
            let row = row_backgrounds(fills@, 0, y as int);
            assert((before + done) + row =~= before + (done + row));
        }
        y = y + 1;
    }
}

/// A run of cells that look the same.
pub struct Run {
    pub x: u16,
    pub y: u16,
    pub width: u16,
    pub text: String,
    pub fg: u32,
    pub bold: bool,
    pub dim: bool,
    pub italic: bool,
    pub underlined: bool,
}

/// A run by its views.
#[verifier::ext_equal]
pub struct RunModel {
    pub x: int,
    pub y: int,
    pub width: int,
    pub text: Seq<char>,
    pub fg: u32,
    pub bold: bool,
    pub dim: bool,
    pub italic: bool,
    pub underlined: bool,
}

impl View for Run {
    type V = RunModel;

    open spec fn view(&self) -> RunModel {
        RunModel {
            x: self.x as int,
            y: self.y as int,
            width: self.width as int,
            text: self.text@,
            fg: self.fg,
            bold: self.bold,
            dim: self.dim,
            italic: self.italic,
            underlined: self.underlined,
        }
    }
}

/// The run of one cell.
pub open spec fn cell_run(cell: StyledCell, x: int, y: int) -> RunModel {
    RunModel {
        x,
        y,
        width: 1,
        text: cell.symbol@,
        fg: shown_colors(cell).0,
        bold: cell.modifiers.bold,
        dim: cell.modifiers.dim,
        italic: cell.modifiers.italic,
        underlined: cell.modifiers.underlined,
    }
}

/// Whether two runs look the same.
pub open spec fn same_look(a: RunModel, b: RunModel) -> bool {
    a.fg == b.fg && a.bold == b.bold && a.dim == b.dim && a.italic == b.italic && a.underlined
        == b.underlined
}

/// Runs with one more behind them, where there is one.
pub open spec fn with_run(runs: Seq<RunModel>, run: Option<RunModel>) -> Seq<RunModel> {
    match run {
        Some(r) => runs.push(r),
        None => runs,
    }
}

/// The runs in the first cells of a row: those that have ended, and the one that goes on. A cell that
/// shows nothing ends a run.
pub open spec fn runs_within(cells: Seq<StyledCell>, x: int, y: int) -> (
    Seq<RunModel>,
    Option<RunModel>,
)
    decreases x,
{
    if x <= 0 {
        (Seq::empty(), None)
    } else {
        let (ended, current) = runs_within(cells, x - 1, y);
        let cell = cells[x - 1];
        let single = cell_run(cell, x - 1, y);
        if cell.symbol@.len() == 0 {
            (with_run(ended, current), None)
        } else {
            match current {
                Some(run) if same_look(run, single) => (
                    ended,
                    Some(
                        RunModel { text: run.text + cell.symbol@, width: run.width + 1, ..run },
                    ),
                ),
                _ => (with_run(ended, current), Some(single)),
            }
        }
    }
}

/// The runs of a row.
pub open spec fn row_runs(cells: Seq<StyledCell>, y: int) -> Seq<RunModel> {
    let (ended, current) = runs_within(cells, cells.len() as int, y);
    with_run(ended, current)
}

/// How a run is shown, beside its colour.
pub open spec fn run_attributes(run: RunModel) -> Seq<char> {
    (if run.bold {
        " font-weight=\"bold\""@
    } else {
        Seq::empty()
    }) + (if run.italic {
        " font-style=\"italic\""@
    } else {
        Seq::empty()
    }) + (if run.underlined {
        " text-decoration=\"underline\""@
    } else {
        Seq::empty()
    }) + (if run.dim {
        " opacity=\"0.65\""@
    } else {
        Seq::empty()
    })
}

/// Whether a text consists of lines and blocks.
pub open spec fn all_rules(text: Seq<char>) -> bool {
    forall|i: int| 0 <= i < text.len() ==> rule_char(#[trigger] text[i])
}

/// A run as text in the picture. It is held to the grid, whatever font shows it; lines and blocks are
/// stretched for that, other text is spread. A run of white space is left out.
pub open spec fn run_text(run: RunModel) -> Seq<char> {
    if crate::strings::trim(run.text).len() == 0 {
        Seq::empty()
    } else {
        "<text x=\""@ + whole(column_at(run.x)) + "\" y=\""@ + and_a_half(row_at(run.y) + 13)
            + "\" fill=\""@ + color_text(run.fg) + "\" textLength=\""@ + whole(run.width * 9)
            + "\" lengthAdjust=\""@ + (if all_rules(run.text) {
            "spacingAndGlyphs"@
        } else {
            "spacing"@
        }) + "\""@ + run_attributes(run) + " xml:space=\"preserve\">"@ + escaped(run.text)
            + "</text>\n"@
    }
}

/// Runs as text in the picture.
pub open spec fn runs_text(runs: Seq<RunModel>) -> Seq<char>
    decreases runs.len(),
{
    if runs.len() == 0 {
        Seq::empty()
    } else {
        runs_text(runs.drop_last()) + run_text(runs.last())
    }
}

/// The text of the first rows.
pub open spec fn texts(buffer: CellBuffer, rows: int) -> Seq<char>
    decreases rows,
{
    if rows <= 0 {
        Seq::empty()
    } else {
        texts(buffer, rows - 1) + runs_text(row_runs(row_cells(buffer, rows - 1), rows - 1))
    }
}

fn holds_only_rules(text: &str) -> (r: bool)
    ensures
        r == all_rules(text@),
{
    let chars = chars_of(text);
    let mut i: usize = 0;
    while i < chars.len()
        invariant
            i <= chars@.len(),
            chars@ == text@,
            forall|j: int| 0 <= j < i ==> rule_char(#[trigger] text@[j]),
        decreases chars@.len() - i,
    {
        if !('\u{2500}' <= chars[i] && chars[i] <= '\u{259f}') {
            assert(!rule_char(text@[i as int]));
            return false;
        }
        i = i + 1;
    }
    true
}

fn append_attributes(svg: &mut String, run: &Run)
    ensures
        final(svg)@ == old(svg)@ + run_attributes(run@),
{
    let ghost before = svg@;
    if run.bold {
        append_text(svg, " font-weight=\"bold\"");
    }
    if run.italic {
        append_text(svg, " font-style=\"italic\"");
    }
    if run.underlined {
        append_text(svg, " text-decoration=\"underline\"");
    }
    if run.dim {
        append_text(svg, " opacity=\"0.65\"");
    }
    assert(svg@ =~= before + run_attributes(run@));
}

fn write_run(svg: &mut String, run: &Run)
    ensures
        final(svg)@ == old(svg)@ + run_text(run@),
{
    let bare = trimmed(run.text.as_str());
    if bare.as_str().is_empty() {
        assert(svg@ + Seq::<char>::empty() =~= svg@);
        return;
    }
    let mut text = "<text x=\"".to_owned();
    append_whole(&mut text, 16 + run.x as u64 * 9);
    append_text(&mut text, "\" y=\"");
    append_half(&mut text, 16 + run.y as u64 * 18 + 13);
    append_text(&mut text, "\" fill=\"");
    append_text(&mut text, color_hex(run.fg).as_str());
    append_text(&mut text, "\" textLength=\"");
    append_whole(&mut text, run.width as u64 * 9);
    append_text(&mut text, "\" lengthAdjust=\"");
    if holds_only_rules(run.text.as_str()) {
        append_text(&mut text, "spacingAndGlyphs");
    } else {
        append_text(&mut text, "spacing");
    }
    append_text(&mut text, "\"");
    append_attributes(&mut text, run);
    append_text(&mut text, " xml:space=\"preserve\">");
    append_text(&mut text, escape(run.text.as_str()).as_str());
    append_text(&mut text, "</text>\n");
    append_text(svg, text.as_str());
}

/// Runs by their views.
pub open spec fn run_views(runs: Seq<Run>) -> Seq<RunModel> {
    runs.map_values(|r: Run| r@)
}

/// A run that may be absent, by its view.
pub open spec fn run_view(run: Option<Run>) -> Option<RunModel> {
    match run {
        Some(r) => Some(r@),
        None => None,
    }
}

fn push_run(runs: &mut Vec<Run>, run: Option<Run>)
    ensures
        run_views(final(runs)@) == with_run(run_views(old(runs)@), run_view(run)),
{
    if let Some(r) = run {
        proof {
            assert(run_views(runs@.push(r)) =~= run_views(runs@).push(r@));
        }
        runs.push(r);
    }
}

fn looks_like(run: &Run, cell: &StyledCell, fg: u32) -> (r: bool)
    requires
        fg == shown_colors(*cell).0,
    ensures
        r == same_look(run@, cell_run(*cell, 0, 0)),
{
    run.fg == fg && run.bold == cell.modifiers.bold && run.dim == cell.modifiers.dim && run.italic
        == cell.modifiers.italic && run.underlined == cell.modifiers.underlined
}

/// The runs of a row.
pub fn collect_runs(buffer: &CellBuffer, y: u16) -> (runs: Vec<Run>)
    requires
        buffer.wf(),
        y < buffer.area.height,
    ensures
        run_views(runs@) == row_runs(row_cells(*buffer, y as int), y as int),
{
    proof {
        lemma_row(*buffer, y as int);
    }
    let ghost cells = row_cells(*buffer, y as int);
    let start: usize = start_of_row(buffer, y);
    let count: usize = buffer.cells.len();
    let mut runs: Vec<Run> = Vec::new();
    let mut current: Option<Run> = None;
    let mut x: u16 = 0;
    assert(run_views(runs@) =~= Seq::<RunModel>::empty());
    while x < buffer.area.width
        invariant
            x <= buffer.area.width,
            buffer.wf(),
            y < buffer.area.height,
            cells == row_cells(*buffer, y as int),
            cells.len() == buffer.area.width,
            start == y * buffer.area.width,
            count == buffer.cells@.len(),
            start + buffer.area.width <= count,
            (run_views(runs@), run_view(current)) == runs_within(cells, x as int, y as int),
            current matches Some(run) ==> run.x + run.width == x && run.y == y,
        decreases buffer.area.width - x,
    {
        proof {
            lemma_row(*buffer, y as int);
            assert(cells[x as int] == buffer.cells@[start + x]);
        }
        let cell = &buffer.cells[start + x as usize];
        if cell.symbol.as_str().is_empty() {
            push_run(&mut runs, current);
            current = None;
        } else {
            let fg: u32 = resolved(cell).0;
            let mut extended = false;
            let mut next: Option<Run> = None;
            if let Some(run) = current {
                if looks_like(&run, cell, fg) {
                    let mut text = run.text;
                    append_text(&mut text, cell.symbol.as_str());
                    next = Some(Run {
                        x: run.x,
                        y: run.y,
                        width: run.width + 1,
                        text,
                        fg: run.fg,
                        bold: run.bold,
                        dim: run.dim,
                        italic: run.italic,
                        underlined: run.underlined,
                    });
                    extended = true;
                } else {
                    push_run(&mut runs, Some(run));
                }
            }
            if !extended {
                next = Some(
                    Run {
                        x,
                        y,
                        width: 1,
                        text: cell.symbol.clone(),
                        fg,
                        bold: cell.modifiers.bold,
                        dim: cell.modifiers.dim,
                        italic: cell.modifiers.italic,
                        underlined: cell.modifiers.underlined,
                    },
                );
            }
            current = next;
        }
        x = x + 1;
    }
    push_run(&mut runs, current);
    runs
}

fn write_text(svg: &mut String, buffer: &CellBuffer)
    requires
        buffer.wf(),
    ensures
        final(svg)@ == old(svg)@ + texts(*buffer, buffer.area.height as int),
{
    let ghost before = svg@;
    let mut y: u16 = 0;
    assert(before + Seq::<char>::empty() =~= before);
    while y < buffer.area.height
        invariant
            y <= buffer.area.height,
            buffer.wf(),
            svg@ == before + texts(*buffer, y as int),
        decreases buffer.area.height - y,
    {
        let runs = collect_runs(buffer, y);
        let ghost views = run_views(runs@);
        let ghost so_far = svg@;
        let mut i: usize = 0;
        assert(so_far + Seq::<char>::empty() =~= so_far);
        assert(views.take(0).len() == 0);
        while i < runs.len()
            invariant
                i <= runs@.len(),
                views == run_views(runs@),
                svg@ == so_far + runs_text(views.take(i as int)),
            decreases runs@.len() - i,
        {
            proof {
                assert(views.take(i + 1).drop_last() == views.take(i as int));
                assert(views.take(i + 1).last() == runs@[i as int]@);
            }
            let ghost step = svg@;
            write_run(svg, &runs[i]);
            proof {
                let done = runs_text(views.take(i as int));
                let one = run_text(runs@[i as int]@);
                assert((so_far + done) + one =~= so_far + (done + one));
            }
            i = i + 1;
        }
        proof {
            assert(views.take(i as int) == views);
            let done = texts(*buffer, y as int);
            let row = runs_text(views);
            assert((before + done) + row =~= before + (done + row));
        }
        y = y + 1;
    }
}

/// The picture's frame, for a screen of some columns and rows.
pub open spec fn picture_head(columns: int, rows: int) -> Seq<char> {
    let width = crate::strings::decimal((32 + columns * 9) as nat);
    let height = crate::strings::decimal((32 + rows * 18) as nat);
    "<svg xmlns=\"http://www.w3.org/2000/svg\" width=\""@ + width + "\" height=\""@ + height
        + "\" viewBox=\"0 0 "@ + width + " "@ + height
        + "\" font-family=\"ui-monospace,SFMono-Regular,Menlo,Consolas,'DejaVu Sans Mono','Liberation Mono',monospace\" font-size=\"15\">\n<rect width=\""@
        + width + "\" height=\""@ + height + "\" rx=\"8\" fill=\""@ + color_text(BACKGROUND)
        + "\"/>\n"@
}

/// A screen as a picture.
pub open spec fn picture(buffer: CellBuffer) -> Seq<char> {
    picture_head(buffer.area.width as int, buffer.area.height as int) + backgrounds(
        buffer,
        buffer.area.height as int,
    ) + texts(buffer, buffer.area.height as int) + "</svg>\n"@
}

/// A screen as a picture.
pub fn render(buffer: &CellBuffer) -> (svg: String)
    requires
        at_origin(*buffer),
    ensures
        svg@ == picture(*buffer),
{
    let width = decimal_text(32 + buffer.area.width as u64 * 9);
    let height = decimal_text(32 + buffer.area.height as u64 * 18);
    let mut svg = "<svg xmlns=\"http://www.w3.org/2000/svg\" width=\"".to_owned();
    append_text(&mut svg, width.as_str());
    append_text(&mut svg, "\" height=\"");
    append_text(&mut svg, height.as_str());
    append_text(&mut svg, "\" viewBox=\"0 0 ");
    append_text(&mut svg, width.as_str());
    append_text(&mut svg, " ");
    append_text(&mut svg, height.as_str());
    append_text(
        &mut svg,
        "\" font-family=\"ui-monospace,SFMono-Regular,Menlo,Consolas,'DejaVu Sans Mono','Liberation Mono',monospace\" font-size=\"15\">\n<rect width=\"",
    );
    append_text(&mut svg, width.as_str());
    append_text(&mut svg, "\" height=\"");
    append_text(&mut svg, height.as_str());
    append_text(&mut svg, "\" rx=\"8\" fill=\"");
    append_text(&mut svg, color_hex(BACKGROUND).as_str());
    append_text(&mut svg, "\"/>\n");
    write_backgrounds(&mut svg, buffer);
    write_text(&mut svg, buffer);
    append_text(&mut svg, "</svg>\n");
    svg
}

/// Text that a program shows never becomes markup: once written out it holds no angle bracket and no
/// quotation mark.
pub proof fn law_escaped_text_holds_no_markup(text: Seq<char>)
    ensures
        forall|i: int|
            0 <= i < escaped(text).len() ==> {
                let c = #[trigger] escaped(text)[i];
                c != '<' && c != '>' && c != '"' && c != '\''
            },
    decreases text.len(),
{
    reveal_strlit("&amp;");
    reveal_strlit("&lt;");
    reveal_strlit("&gt;");
    reveal_strlit("&quot;");
    reveal_strlit("&apos;");
    if text.len() > 0 {
        let before = escaped(text.drop_last());
        let last = entity(text.last());
        law_escaped_text_holds_no_markup(text.drop_last());
        assert forall|i: int| 0 <= i < escaped(text).len() implies {
            let c = #[trigger] escaped(text)[i];
            c != '<' && c != '>' && c != '"' && c != '\''
        } by {
            if i < before.len() {
                assert(escaped(text)[i] == before[i]);
            } else {
                assert(escaped(text)[i] == last[i - before.len()]);
            }
        }
    }
}

/// The character whose written-out form a text begins with.
pub open spec fn entity_at(text: Seq<char>) -> Option<char> {
    if has_prefix(text, "&amp;"@) {
        Some('&')
    } else if has_prefix(text, "&lt;"@) {
        Some('<')
    } else if has_prefix(text, "&gt;"@) {
        Some('>')
    } else if has_prefix(text, "&quot;"@) {
        Some('"')
    } else if has_prefix(text, "&apos;"@) {
        Some('\'')
    } else {
        None
    }
}

/// A text with its written-out characters put back.
pub open spec fn unescaped(text: Seq<char>) -> Seq<char>
    decreases text.len(),
    via unescaped_goes_on
{
    if text.len() == 0 {
        Seq::empty()
    } else {
        match entity_at(text) {
            Some(c) => seq![c] + unescaped(text.skip(entity(c).len() as int)),
            None => seq![text[0]] + unescaped(text.skip(1)),
        }
    }
}

#[via_fn]
proof fn unescaped_goes_on(text: Seq<char>) {
    reveal_strlit("&amp;");
    reveal_strlit("&lt;");
    reveal_strlit("&gt;");
    reveal_strlit("&quot;");
    reveal_strlit("&apos;");
}

/// A text is written out piece by piece: two pieces give what both together give.
pub proof fn law_escaping_is_done_piece_by_piece(a: Seq<char>, b: Seq<char>)
    ensures
        escaped(a + b) == escaped(a) + escaped(b),
    decreases b.len(),
{
    if b.len() == 0 {
        assert(a + b =~= a);
        assert(escaped(a) + escaped(b) =~= escaped(a));
    } else {
        law_escaping_is_done_piece_by_piece(a, b.drop_last());
        assert((a + b).drop_last() =~= a + b.drop_last());
        assert((a + b).last() == b.last());
        assert(escaped(a + b) =~= escaped(a) + escaped(b));
    }
}

/// Putting the written-out characters back gives the text that was written out.
pub proof fn law_escaped_text_reads_back(text: Seq<char>)
    ensures
        unescaped(escaped(text)) == text,
    decreases text.len(),
{
    if text.len() > 0 {
        let c = text[0];
        let rest = text.skip(1);
        lemma_escaped_from_the_front(text);
        lemma_entity_at(c, escaped(rest));
        law_escaped_text_reads_back(rest);
        assert((entity(c) + escaped(rest)).skip(entity(c).len() as int) =~= escaped(rest));
        assert(seq![c] + rest =~= text);
    }
}

/// Every ampersand of a written-out text begins the written-out form of a character.
pub proof fn law_every_ampersand_begins_an_entity(text: Seq<char>, at: int)
    requires
        0 <= at < escaped(text).len(),
        escaped(text)[at] == '&',
    ensures
        entity_at(escaped(text).skip(at)) is Some,
    decreases text.len(),
{
    reveal_strlit("&amp;");
    reveal_strlit("&lt;");
    reveal_strlit("&gt;");
    reveal_strlit("&quot;");
    reveal_strlit("&apos;");
    if text.len() > 0 {
        let c = text[0];
        let rest = text.skip(1);
        lemma_escaped_from_the_front(text);
        lemma_entity_at(c, escaped(rest));
        if at < entity(c).len() {
            assert(entity(c)[at] == '&');
            assert(at == 0);
            assert(escaped(text).skip(0) =~= escaped(text));
        } else {
            let inner = at - entity(c).len();
            law_every_ampersand_begins_an_entity(rest, inner);
            assert(escaped(text).skip(at) =~= escaped(rest).skip(inner));
        }
    }
}

proof fn lemma_escaped_from_the_front(text: Seq<char>)
    requires
        text.len() > 0,
    ensures
        escaped(text) == entity(text[0]) + escaped(text.skip(1)),
        text.skip(1).len() < text.len(),
{
    let first = seq![text[0]];
    assert(first + text.skip(1) =~= text);
    law_escaping_is_done_piece_by_piece(first, text.skip(1));
    assert(first.drop_last() =~= Seq::<char>::empty());
    assert(escaped(first.drop_last()) =~= Seq::<char>::empty());
    assert(first.last() == text[0]);
    assert(escaped(first) =~= entity(text[0]));
}

/// A text that begins with the written-out form of a character is read as that character.
proof fn lemma_entity_at(c: char, rest: Seq<char>)
    ensures
        entity(c).len() > 0,
        (entity(c) + rest)[0] == entity(c)[0],
        entity_at(entity(c) + rest) == (if entity(c) == seq![c] {
            None
        } else {
            Some(c)
        }),
        c == '&' ==> entity(c) != seq![c],
        entity(c) != seq![c] ==> entity(c)[0] == '&',
{
    reveal_strlit("&amp;");
    reveal_strlit("&lt;");
    reveal_strlit("&gt;");
    reveal_strlit("&quot;");
    reveal_strlit("&apos;");
    let text = entity(c) + rest;
    assert(seq![c].len() == 1);
    if entity(c).len() > 1 {
        assert(text.take(entity(c).len() as int) =~= entity(c));
        assert(has_prefix(text, entity(c)));
        assert(text[1] == entity(c)[1]);
        assert(text[2] == entity(c)[2]);
    }
    lemma_prefix_characters(text, "&amp;"@);
    lemma_prefix_characters(text, "&lt;"@);
    lemma_prefix_characters(text, "&gt;"@);
    lemma_prefix_characters(text, "&quot;"@);
    lemma_prefix_characters(text, "&apos;"@);
}

proof fn lemma_prefix_characters(text: Seq<char>, prefix: Seq<char>)
    requires
        prefix.len() >= 3,
    ensures
        has_prefix(text, prefix) ==> text[0] == prefix[0] && text[1] == prefix[1] && text[2]
            == prefix[2],
{
    if has_prefix(text, prefix) {
        let head = text.take(prefix.len() as int);
        assert(head[0] == text[0] && head[1] == text[1] && head[2] == text[2]);
    }
}

/// The text of runs, one behind the other.
pub open spec fn joined_runs(runs: Seq<RunModel>) -> Seq<char>
    decreases runs.len(),
{
    if runs.len() == 0 {
        Seq::empty()
    } else {
        joined_runs(runs.drop_last()) + runs.last().text
    }
}

/// What the first cells of a row show.
pub open spec fn row_text(cells: Seq<StyledCell>, x: int) -> Seq<char>
    decreases x,
{
    if x <= 0 {
        Seq::empty()
    } else {
        row_text(cells, x - 1) + cells[x - 1].symbol@
    }
}

proof fn lemma_joined(runs: Seq<RunModel>, run: Option<RunModel>)
    ensures
        joined_runs(with_run(runs, run)) == joined_runs(runs) + (match run {
            Some(r) => r.text,
            None => Seq::empty(),
        }),
{
    if let Some(r) = run {
        assert(runs.push(r).drop_last() =~= runs);
    } else {
        assert(joined_runs(runs) + Seq::<char>::empty() =~= joined_runs(runs));
    }
}

proof fn lemma_runs_keep_text(cells: Seq<StyledCell>, x: int, y: int)
    requires
        0 <= x <= cells.len(),
    ensures
        ({
            let (ended, current) = runs_within(cells, x, y);
            joined_runs(with_run(ended, current)) == row_text(cells, x)
        }),
    decreases x,
{
    if x > 0 {
        let (ended, current) = runs_within(cells, x - 1, y);
        let cell = cells[x - 1];
        let single = cell_run(cell, x - 1, y);
        lemma_runs_keep_text(cells, x - 1, y);
        let before = with_run(ended, current);
        lemma_joined(ended, current);
        let (now_ended, now) = runs_within(cells, x, y);
        lemma_joined(now_ended, now);
        if cell.symbol@.len() == 0 {
            assert(row_text(cells, x - 1) + cell.symbol@ =~= row_text(cells, x - 1));
            assert(joined_runs(before) + Seq::<char>::empty() =~= joined_runs(before));
        } else {
            match current {
                Some(run) => {
                    if same_look(run, single) {
                        assert(joined_runs(ended) + (run.text + cell.symbol@) =~= (joined_runs(ended)
                            + run.text) + cell.symbol@);
                    }
                },
                None => {},
            }
        }
    }
}

/// Putting the cells of a row into runs loses none of its text.
pub proof fn law_runs_keep_the_text(cells: Seq<StyledCell>, y: int)
    ensures
        joined_runs(row_runs(cells, y)) == row_text(cells, cells.len() as int),
{
    lemma_runs_keep_text(cells, cells.len() as int, y);
}

/// A colour is written with six digits, from which its red, green and blue are read back.
pub proof fn law_colours_read_back(r: u8, g: u8, b: u8, default: u32)
    ensures
        ({
            let text = color_text(picture_color(Color::Rgb(r, g, b), default));
            let value = |i: int| crate::hashing::digit_value(text[i]);
            &&& text.len() == 7 && text[0] == '#'
            &&& 16 * value(1) + value(2) == r
            &&& 16 * value(3) + value(4) == g
            &&& 16 * value(5) + value(6) == b
        }),
{
    let n = picture_color(Color::Rgb(r, g, b), default) as int;
    let q = 256 * r + g;
    assert(n == 256 * q + b);
    lemma_last_byte(n, q, b as int);
    lemma_last_byte(q, r as int, g as int);
    lemma_last_byte(r as int, 0, r as int);
    assert(n / 4096 == n / 256 / 16 && n / 65536 == n / 256 / 256 && n / 1048576 == n / 256 / 256 / 16);
    lemma_digit_reads_back(r as int / 16);
    lemma_digit_reads_back(r as int % 16);
    lemma_digit_reads_back(g as int / 16);
    lemma_digit_reads_back(g as int % 16);
    lemma_digit_reads_back(b as int / 16);
    lemma_digit_reads_back(b as int % 16);
}

proof fn lemma_last_byte(n: int, high: int, low: int)
    requires
        n == 256 * high + low,
        0 <= low < 256,
        0 <= high,
    ensures
        n / 256 == high,
        n % 16 == low % 16,
        n / 16 % 16 == low / 16,
{
    assert(n / 16 == 16 * high + low / 16);
}

proof fn lemma_digit_reads_back(n: int)
    requires
        0 <= n < 16,
    ensures
        crate::hashing::digit_value(crate::hashing::hex_digit(n)) == n,
{
}

/// A reversed cell is drawn with its two colours exchanged, and one without colours of its own with
/// those of the picture.
pub proof fn law_reversed_cells_exchange_their_colours(cell: StyledCell, other: StyledCell)
    requires
        other.fg == cell.fg,
        other.bg == cell.bg,
        other.modifiers.reversed == !cell.modifiers.reversed,
    ensures
        shown_colors(other).0 == shown_colors(cell).1,
        shown_colors(other).1 == shown_colors(cell).0,
        cell.fg == Color::Reset && !cell.modifiers.reversed ==> shown_colors(cell).0 == 0xcdd6f4,
        cell.bg == Color::Reset && !cell.modifiers.reversed ==> shown_colors(cell).1 == 0x11111b,
{
}

/// A named colour is drawn as the numbered one that means the same.
pub proof fn law_drawn_names_and_numbers_agree(default: u32)
    ensures
        picture_color(Color::Black, default) == picture_color(Color::Indexed(0), default),
        picture_color(Color::Red, default) == picture_color(Color::Indexed(1), default),
        picture_color(Color::Green, default) == picture_color(Color::Indexed(2), default),
        picture_color(Color::Yellow, default) == picture_color(Color::Indexed(3), default),
        picture_color(Color::Blue, default) == picture_color(Color::Indexed(4), default),
        picture_color(Color::Magenta, default) == picture_color(Color::Indexed(5), default),
        picture_color(Color::Cyan, default) == picture_color(Color::Indexed(6), default),
        picture_color(Color::Gray, default) == picture_color(Color::Indexed(7), default),
        picture_color(Color::DarkGray, default) == picture_color(Color::Indexed(8), default),
        picture_color(Color::LightRed, default) == picture_color(Color::Indexed(9), default),
        picture_color(Color::LightGreen, default) == picture_color(Color::Indexed(10), default),
        picture_color(Color::LightYellow, default) == picture_color(Color::Indexed(11), default),
        picture_color(Color::LightBlue, default) == picture_color(Color::Indexed(12), default),
        picture_color(Color::LightMagenta, default) == picture_color(Color::Indexed(13), default),
        picture_color(Color::LightCyan, default) == picture_color(Color::Indexed(14), default),
        picture_color(Color::White, default) == picture_color(Color::Indexed(15), default),
        picture_color(Color::Reset, default) == default,
{
}

/// Neighbouring cells are drawn next to one another: a column is nine wide and a row eighteen high.
pub proof fn law_cells_are_drawn_next_to_one_another(x: int, y: int)
    ensures
        column_at(0) == 16 && row_at(0) == 16,
        column_at(x + 1) - column_at(x) == 9,
        row_at(y + 1) - row_at(y) == 18,
{
}

/// A picture begins with its size and ends where it is closed.
pub proof fn law_pictures_are_closed(buffer: CellBuffer)
    ensures
        ({
            let text = picture(buffer);
            let head = picture_head(buffer.area.width as int, buffer.area.height as int);
            &&& text.len() >= head.len() + 7
            &&& text.take(head.len() as int) == head
            &&& text.skip(text.len() - 7) == "</svg>\n"@
        }),
{
    reveal_strlit("</svg>\n");
    let text = picture(buffer);
    let head = picture_head(buffer.area.width as int, buffer.area.height as int);
    assert(text.take(head.len() as int) =~= head);
    assert(text.skip(text.len() - 7) =~= "</svg>\n"@);
}

/// Cells with the background of the picture are not drawn again, and a stretch of one colour is drawn
/// once, as wide as it is.
pub proof fn law_backgrounds_are_drawn_once(fills: Seq<u32>, x: int, y: int, end: int)
    requires
        0 <= x <= end <= fills.len(),
    ensures
        (forall|i: int| x <= i < end ==> #[trigger] fills[i] == BACKGROUND) ==> row_backgrounds(
            fills,
            x,
            y,
        ) == row_backgrounds(fills, end, y),
        x < end && fills[x] != BACKGROUND && (forall|i: int|
            x <= i < end ==> #[trigger] fills[i] == fills[x]) && (end < fills.len() ==> fills[end]
            != fills[x]) ==> row_backgrounds(fills, x, y) == background_rect(x, y, end - x, fills[x])
            + row_backgrounds(fills, end, y),
    decreases end - x,
{
    if x < end {
        if forall|i: int| x <= i < end ==> #[trigger] fills[i] == BACKGROUND {
            assert(fills[x] == BACKGROUND);
            law_backgrounds_are_drawn_once(fills, x + 1, y, end);
        }
        if fills[x] != BACKGROUND && (forall|i: int| x <= i < end ==> #[trigger] fills[i] == fills[x])
            && (end < fills.len() ==> fills[end] != fills[x]) {
            lemma_stretch_ends(fills, x, end, fills[x]);
        }
    }
}

proof fn lemma_stretch_ends(fills: Seq<u32>, x: int, end: int, fill: u32)
    requires
        0 <= x <= end <= fills.len(),
        forall|i: int| x <= i < end ==> #[trigger] fills[i] == fill,
        end < fills.len() ==> fills[end] != fill,
    ensures
        fill_end(fills, x, fill) == end,
    decreases end - x,
{
    if x < end {
        assert(fills[x] == fill);
        lemma_stretch_ends(fills, x + 1, end, fill);
    }
}

/// A run is drawn as it looks: bold, slanted, underlined or faint, each exactly where it is.
pub proof fn law_runs_are_drawn_as_they_look(run: RunModel)
    ensures
        run.bold ==> run_attributes(run) == " font-weight=\"bold\""@ + run_attributes(
            RunModel { bold: false, ..run },
        ),
        !run.bold && run.italic ==> run_attributes(run) == " font-style=\"italic\""@ + run_attributes(
            RunModel { italic: false, ..run },
        ),
        !run.bold && !run.italic && run.underlined ==> run_attributes(run)
            == " text-decoration=\"underline\""@ + run_attributes(RunModel { underlined: false, ..run }),
        !run.bold && !run.italic && !run.underlined && run.dim ==> run_attributes(run)
            == " opacity=\"0.65\""@,
        !run.bold && !run.italic && !run.underlined && !run.dim ==> run_attributes(run) == Seq::<
            char,
        >::empty(),
{
    if run.bold {
        assert(run_attributes(run) =~= " font-weight=\"bold\""@ + run_attributes(
            RunModel { bold: false, ..run },
        ));
    } else if run.italic {
        assert(run_attributes(run) =~= " font-style=\"italic\""@ + run_attributes(
            RunModel { italic: false, ..run },
        ));
    } else if run.underlined {
        assert(run_attributes(run) =~= " text-decoration=\"underline\""@ + run_attributes(
            RunModel { underlined: false, ..run },
        ));
    } else if run.dim {
        assert(run_attributes(run) =~= " opacity=\"0.65\""@);
    } else {
        assert(run_attributes(run) =~= Seq::<char>::empty());
    }
}

/// A numbered colour behind the first sixteen is drawn with the parts that it has everywhere.
pub proof fn law_numbered_colours_are_drawn_by_their_parts(n: u8, default: u32)
    requires
        n >= 16,
    ensures
        ({
            let (r, g, b) = crate::theme::indexed_parts(n);
            picture_color(Color::Indexed(n), default) == picture_color(Color::Rgb(r, g, b), default)
        }),
{
}

} // verus!
