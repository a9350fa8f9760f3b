//! A small text field: characters, a cursor between them, and the edits a form needs.

use crate::strings::{chars_of, text_of};
use vstd::prelude::*;

verus! {

/// An editable text with a cursor. A single-line editor takes line breaks as spaces.
pub struct TextEditor {
    pub chars: Vec<char>,
    pub cursor: usize,
    pub one_line: bool,
}

/// A text as a single-line editor takes it: every line break character becomes a space.
pub open spec fn flattened(text: Seq<char>) -> Seq<char> {
    text.map_values(|c: char| if c == '\r' || c == '\n' { ' ' } else { c })
}

/// Where the line that holds position `at` starts.
pub open spec fn line_start(text: Seq<char>, at: int) -> int
    decreases at,
{
    if 0 < at <= text.len() && text[at - 1] != '\n' {
        line_start(text, at - 1)
    } else {
        at
    }
}

/// Where the line that holds position `at` ends.
pub open spec fn line_end(text: Seq<char>, at: int) -> int
    decreases text.len() - at,
{
    if 0 <= at < text.len() && text[at] != '\n' {
        line_end(text, at + 1)
    } else {
        at
    }
}

/// The position one line up or down in the same column, or at the end of a shorter line. At the
/// first or last line the position stays.
pub open spec fn vertical_move(text: Seq<char>, at: int, down: bool) -> int {
    let start = line_start(text, at);
    let column = at - start;
    if down {
        let end = line_end(text, at);
        if end >= text.len() {
            at
        } else {
            let below = line_end(text, end + 1);
            if end + 1 + column < below {
                end + 1 + column
            } else {
                below
            }
        }
    } else if start == 0 {
        at
    } else {
        let above = line_start(text, start - 1);
        if above + column < start - 1 {
            above + column
        } else {
            start - 1
        }
    }
}

/// A place in a text by its line and the column in it, both counted from zero.
#[derive(Clone, Copy, Debug, PartialEq, Eq, Structural)]
pub struct CursorPosition {
    pub row: usize,
    pub col: usize,
}

/// How many lines end before a position.
pub open spec fn line_number(text: Seq<char>, at: int) -> nat
    decreases at,
{
    if at <= 0 {
        0
    } else {
        line_number(text, at - 1) + if text[at - 1] == '\n' {
            1nat
        } else {
            0
        }
    }
}

/// Where a line starts; the last line stands for all that would come behind it.
pub open spec fn row_start(text: Seq<char>, row: nat) -> int
    decreases row,
{
    if row == 0 {
        0
    } else {
        let above = row_start(text, (row - 1) as nat);
        let end = line_end(text, above);
        if end < text.len() {
            end + 1
        } else {
            above
        }
    }
}

/// The position at a line and a column; the last line stands for those behind it, and the end of a
/// line for the columns behind that.
pub open spec fn position_at(text: Seq<char>, place: CursorPosition) -> int {
    let start = row_start(text, place.row as nat);
    let end = line_end(text, start);
    if start + place.col < end {
        start + place.col
    } else {
        end
    }
}

/// The line and the column of a position.
pub open spec fn place_of(text: Seq<char>, at: int) -> (int, int) {
    (line_number(text, at) as int, at - line_start(text, at))
}

/// Whether an editor is another after inserting a text at its cursor.
pub open spec fn inserted(before: TextEditor, text: Seq<char>, after: TextEditor) -> bool {
    let added = if before.one_line {
        flattened(text)
    } else {
        text
    };
    let at = before.cursor as int;
    &&& after.chars@ == before.chars@.take(at) + added + before.chars@.skip(at)
    &&& after.cursor == at + added.len()
    &&& after.one_line == before.one_line
}

/// Whether an editor is another after removing the character in front of its cursor.
pub open spec fn backspaced(before: TextEditor, after: TextEditor) -> bool {
    if before.cursor == 0 {
        after == before
    } else {
        &&& after.chars@ == before.chars@.remove(before.cursor - 1)
        &&& after.cursor == before.cursor - 1
        &&& after.one_line == before.one_line
    }
}

/// Whether an editor is another after removing the character behind its cursor.
pub open spec fn deleted(before: TextEditor, after: TextEditor) -> bool {
    if before.cursor >= before.chars@.len() {
        after == before
    } else {
        &&& after.chars@ == before.chars@.remove(before.cursor as int)
        &&& after.cursor == before.cursor
        &&& after.one_line == before.one_line
    }
}

/// An editor after moving its cursor by one character.
pub open spec fn stepped(before: TextEditor, right: bool) -> TextEditor {
    TextEditor {
        cursor: if right && before.cursor < before.chars@.len() {
            (before.cursor + 1) as usize
        } else if !right && before.cursor > 0 {
            (before.cursor - 1) as usize
        } else {
            before.cursor
        },
        ..before
    }
}

/// An editor after moving its cursor to the start or the end of its line.
pub open spec fn at_line_boundary(before: TextEditor, end: bool) -> TextEditor {
    TextEditor {
        cursor: (if end {
            line_end(before.chars@, before.cursor as int)
        } else {
            line_start(before.chars@, before.cursor as int)
        }) as usize,
        ..before
    }
}

impl TextEditor {
    /// The cursor stands somewhere in the text.
    pub open spec fn wf(&self) -> bool {
        self.cursor <= self.chars@.len()
    }

    /// An editor for a text, with the cursor in front of it.
    pub fn new(content: &str) -> (editor: TextEditor)
        ensures
            editor.wf(),
            editor.chars@ == content@,
            editor.cursor == 0,
            !editor.one_line,
    {
        TextEditor { chars: chars_of(content), cursor: 0, one_line: false }
    }

    /// The same editor, restricted to one line.
    pub fn single_line(self) -> (editor: TextEditor)
        ensures
            editor == (TextEditor { one_line: true, ..self }),
    {
        TextEditor { chars: self.chars, cursor: self.cursor, one_line: true }
    }

    /// The text.
    pub fn text(&self) -> (text: String)
        ensures
            text@ == self.chars@,
    {
        text_of(&self.chars)
    }

    /// Moves the cursor behind the text.
    pub fn move_cursor_to_end(&mut self)
        ensures
            final(self).wf(),
            final(self).cursor == old(self).chars@.len(),
            final(self).chars == old(self).chars,
            final(self).one_line == old(self).one_line,
    {
        self.cursor = self.chars.len();
    }

    /// Inserts a text at the cursor, which moves behind it.
    pub fn insert_text(&mut self, text: &str)
        requires
            old(self).wf(),
        ensures
            final(self).wf(),
            inserted(*old(self), text@, *final(self)),
    {
        let incoming = chars_of(text);
        let ghost before = self.chars@;
        let ghost at = self.cursor as int;
        let ghost added = if self.one_line {
            flattened(text@)
        } else {
            text@
        };
        let mut tail = self.chars.split_off(self.cursor);
        let mut i: usize = 0;
        while i < incoming.len()
            invariant
                i <= incoming@.len(),
                incoming@ == text@,
                before.len() >= at >= 0,
                self.one_line == old(self).one_line,
                self.cursor == old(self).cursor,
                added == (if self.one_line {
                    flattened(text@)
                } else {
                    text@
                }),
                self.chars@ == before.take(at) + added.take(i as int),
            decreases incoming@.len() - i,
        {
            let c = incoming[i];
            if self.one_line && (c == '\r' || c == '\n') {
                self.chars.push(' ');
            } else {
                self.chars.push(c);
            }
            assert(added.take(i + 1) == added.take(i as int).push(added[i as int]));
            assert(self.chars@ == before.take(at) + added.take(i + 1));
            i = i + 1;
        }
        assert(added.take(i as int) == added);
        self.cursor = self.chars.len();
        self.chars.append(&mut tail);
        assert(self.chars@ == before.take(at) + added + before.skip(at));
    }

    /// Removes the character in front of the cursor.
    pub fn backspace(&mut self)
        requires
            old(self).wf(),
        ensures
            final(self).wf(),
            backspaced(*old(self), *final(self)),
    {
        if self.cursor > 0 {
            let at: usize = self.cursor - 1;
            self.chars.remove(at);
            self.cursor = at;
        }
    }

    /// Removes the character behind the cursor.
    pub fn delete(&mut self)
        requires
            old(self).wf(),
        ensures
            final(self).wf(),
            deleted(*old(self), *final(self)),
    {
        if self.cursor < self.chars.len() {
            let at: usize = self.cursor;
            self.chars.remove(at);
        }
    }

    /// Moves the cursor by one character, as far as the text goes.
    pub fn move_cursor(&mut self, right: bool)
        requires
            old(self).wf(),
        ensures
            final(self).wf(),
            *final(self) == stepped(*old(self), right),
    {
        if right {
            if self.cursor < self.chars.len() {
                self.cursor = self.cursor + 1;
            }
        } else if self.cursor > 0 {
            self.cursor = self.cursor - 1;
        }
    }

    fn find_line_start(&self, at: usize) -> (start: usize)
        requires
            at <= self.chars@.len(),
        ensures
            start == line_start(self.chars@, at as int),
            start <= at,
    {
        let mut start: usize = at;
        while start > 0 && self.chars[start - 1] != '\n'
            invariant
                start <= at <= self.chars@.len(),
                line_start(self.chars@, at as int) == line_start(self.chars@, start as int),
            decreases start,
        {
            start = start - 1;
        }
        start
    }

    fn find_line_end(&self, at: usize) -> (end: usize)
        requires
            at <= self.chars@.len(),
        ensures
            end == line_end(self.chars@, at as int),
            at <= end <= self.chars@.len(),
    {
        let mut end: usize = at;
        while end < self.chars.len() && self.chars[end] != '\n'
            invariant
                at <= end <= self.chars@.len(),
                line_end(self.chars@, at as int) == line_end(self.chars@, end as int),
            decreases self.chars@.len() - end,
        {
            end = end + 1;
        }
        end
    }

    /// The line and the column of the cursor.
    pub fn cursor_position(&self) -> (place: CursorPosition)
        requires
            self.wf(),
        ensures
            (place.row as int, place.col as int) == place_of(self.chars@, self.cursor as int),
    {
        let mut row: usize = 0;
        let mut i: usize = 0;
        while i < self.cursor
            invariant
                i <= self.cursor <= self.chars@.len(),
                row <= i,
                row == line_number(self.chars@, i as int),
            decreases self.cursor - i,
        {
            if self.chars[i] == '\n' {
                row = row + 1;
            }
            i = i + 1;
        }
        CursorPosition { row, col: self.cursor - self.find_line_start(self.cursor) }
    }

    /// Puts the cursor at a line and a column, or as near as the text allows.
    pub fn set_cursor(&mut self, place: CursorPosition)
        ensures
            final(self).wf(),
            *final(self) == (TextEditor {
                cursor: position_at(old(self).chars@, place) as usize,
                ..*old(self)
            }),
            final(self).cursor == position_at(old(self).chars@, place),
    {
        let count: usize = self.chars.len();
        let mut start: usize = 0;
        let mut end: usize = self.find_line_end(0);
        let mut row: usize = 0;
        while row < place.row && end < count
            invariant
                row <= place.row,
                count == self.chars@.len(),
                start <= end <= count,
                start == row_start(self.chars@, row as nat),
                end == line_end(self.chars@, start as int),
                *self == *old(self),
            decreases place.row - row,
        {
            start = end + 1;
            end = self.find_line_end(start);
            row = row + 1;
        }
        proof {
            lemma_rows_behind_the_last(self.chars@, row as nat, place.row as nat);
        }
        self.cursor = if place.col < end - start {
            start + place.col
        } else {
            end
        };
    }

    /// Moves the cursor to the start or the end of its line.
    pub fn move_line_boundary(&mut self, end: bool)
        requires
            old(self).wf(),
        ensures
            final(self).wf(),
            *final(self) == at_line_boundary(*old(self), end),
    {
        self.cursor = if end {
            self.find_line_end(self.cursor)
        } else {
            self.find_line_start(self.cursor)
        };
    }

    /// Moves the cursor one line up or down.
    pub fn move_vertical(&mut self, down: bool)
        requires
            old(self).wf(),
        ensures
            final(self).wf(),
            *final(self) == (TextEditor {
                cursor: vertical_move(old(self).chars@, old(self).cursor as int, down) as usize,
                ..*old(self)
            }),
    {
        let at: usize = self.cursor;
        let count: usize = self.chars.len();
        let start = self.find_line_start(at);
        let column: usize = at - start;
        if down {
            let end = self.find_line_end(at);
            if end < count {
                let below = self.find_line_end(end + 1);
                self.cursor = if column < below - (end + 1) {
                    end + 1 + column
                } else {
                    below
                };
            }
        } else if start > 0 {
            let above = self.find_line_start(start - 1);
            self.cursor = if column < start - 1 - above {
                above + column
            } else {
                start - 1
            };
        }
    }
}

/// Where a line is the last one, it stands for every line behind it.
proof fn lemma_rows_behind_the_last(text: Seq<char>, row: nat, behind: nat)
    requires
        row <= behind,
        row == behind || line_end(text, row_start(text, row)) >= text.len(),
    ensures
        row_start(text, behind) == row_start(text, row),
    decreases behind - row,
{
    if row < behind {
        lemma_rows_behind_the_last(text, row, (behind - 1) as nat);
    }
}

proof fn lemma_line_bounds(text: Seq<char>, at: int)
    requires
        0 <= at <= text.len(),
    ensures
        0 <= line_start(text, at) <= at,
        at <= line_end(text, at) <= text.len(),
    decreases at,
{
    lemma_line_end_bounds(text, at);
    if 0 < at && text[at - 1] != '\n' {
        lemma_line_bounds(text, at - 1);
    }
}

proof fn lemma_line_end_bounds(text: Seq<char>, at: int)
    requires
        0 <= at <= text.len(),
    ensures
        at <= line_end(text, at) <= text.len(),
    decreases text.len() - at,
{
    if at < text.len() && text[at] != '\n' {
        lemma_line_end_bounds(text, at + 1);
    }
}

/// A line ends in one place, seen from its start or from a position in it.
proof fn lemma_line_end_from_its_start(text: Seq<char>, at: int)
    requires
        0 <= at <= text.len(),
    ensures
        line_end(text, line_start(text, at)) == line_end(text, at),
    decreases at,
{
    if 0 < at && text[at - 1] != '\n' {
        lemma_line_end_from_its_start(text, at - 1);
    }
}

proof fn lemma_row_of_a_position(text: Seq<char>, at: int)
    requires
        0 <= at <= text.len(),
    ensures
        row_start(text, line_number(text, at)) == line_start(text, at),
    decreases at,
{
    if at > 0 {
        lemma_row_of_a_position(text, at - 1);
        if text[at - 1] == '\n' {
            lemma_line_end_from_its_start(text, at - 1);
            assert(line_end(text, at - 1) == at - 1);
        }
    }
}

/// A cursor that is put at the line and the column it was at stands where it stood.
pub proof fn law_a_cursor_is_restored(text: Seq<char>, at: int, place: CursorPosition)
    requires
        0 <= at <= text.len(),
        (place.row as int, place.col as int) == place_of(text, at),
    ensures
        position_at(text, place) == at,
{
    lemma_row_of_a_position(text, at);
    lemma_line_end_from_its_start(text, at);
    lemma_line_bounds(text, at);
}

/// Wherever a cursor is put, it stands in the text.
pub proof fn law_a_cursor_stays_in_the_text(text: Seq<char>, place: CursorPosition)
    ensures
        0 <= position_at(text, place) <= text.len(),
{
    lemma_row_start_bounds(text, place.row as nat);
    lemma_line_end_bounds(text, row_start(text, place.row as nat));
}

proof fn lemma_row_start_bounds(text: Seq<char>, row: nat)
    ensures
        0 <= row_start(text, row) <= text.len(),
    decreases row,
{
    if row > 0 {
        lemma_row_start_bounds(text, (row - 1) as nat);
        lemma_line_end_bounds(text, row_start(text, (row - 1) as nat));
    }
}

/// Removing the character that was just typed leaves the text and the cursor as they were.
pub proof fn law_backspace_undoes_typing(text: Seq<char>, cursor: int, c: char)
    requires
        0 <= cursor <= text.len(),
    ensures
        (text.take(cursor) + seq![c] + text.skip(cursor)).remove(cursor) == text,
{
    assert((text.take(cursor) + seq![c] + text.skip(cursor)).remove(cursor) =~= text);
}

/// The line that a cursor stands in: nothing breaks it on either side of the cursor, and what stands
/// before and behind it does.
pub proof fn law_a_line_reaches_from_break_to_break(text: Seq<char>, at: int)
    requires
        0 <= at <= text.len(),
    ensures
        0 <= line_start(text, at) <= at <= line_end(text, at) <= text.len(),
        forall|i: int| line_start(text, at) <= i < line_end(text, at) ==> #[trigger] text[i] != '\n',
        line_start(text, at) > 0 ==> text[line_start(text, at) - 1] == '\n',
        line_end(text, at) < text.len() ==> text[line_end(text, at)] == '\n',
{
    lemma_start_of_line(text, at);
    lemma_end_of_line(text, at);
}

proof fn lemma_start_of_line(text: Seq<char>, at: int)
    requires
        0 <= at <= text.len(),
    ensures
        0 <= line_start(text, at) <= at,
        forall|i: int| line_start(text, at) <= i < at ==> #[trigger] text[i] != '\n',
        line_start(text, at) > 0 ==> text[line_start(text, at) - 1] == '\n',
    decreases at,
{
    if 0 < at && text[at - 1] != '\n' {
        lemma_start_of_line(text, at - 1);
    }
}

proof fn lemma_end_of_line(text: Seq<char>, at: int)
    requires
        0 <= at <= text.len(),
    ensures
        at <= line_end(text, at) <= text.len(),
        forall|i: int| at <= i < line_end(text, at) ==> #[trigger] text[i] != '\n',
        line_end(text, at) < text.len() ==> text[line_end(text, at)] == '\n',
    decreases text.len() - at,
{
    if at < text.len() && text[at] != '\n' {
        lemma_end_of_line(text, at + 1);
    }
}

proof fn lemma_places_in_a_line(text: Seq<char>, start: int, at: int)
    requires
        0 <= start <= at <= text.len(),
        start > 0 ==> text[start - 1] == '\n',
        forall|i: int| start <= i < at ==> #[trigger] text[i] != '\n',
    ensures
        line_start(text, at) == start,
        line_number(text, at) == line_number(text, start),
    decreases at - start,
{
    if start < at {
        assert(text[at - 1] != '\n');
        lemma_places_in_a_line(text, start, at - 1);
    }
}

/// Moving down goes one row down, and moving up one row up, in the column where the cursor stood or at
/// the end of a line that is shorter. Where there is no such row, the cursor stays.
pub proof fn law_vertical_moves_keep_the_column(text: Seq<char>, at: int)
    requires
        0 <= at <= text.len(),
    ensures
        ({
            let (row, column) = place_of(text, at);
            let below = vertical_move(text, at, true);
            let above = vertical_move(text, at, false);
            &&& 0 <= below <= text.len() && 0 <= above <= text.len()
            &&& line_end(text, at) == text.len() ==> below == at
            &&& line_end(text, at) < text.len() ==> place_of(text, below).0 == row + 1 && place_of(
                text,
                below,
            ).1 <= column && (place_of(text, below).1 == column || line_end(text, below) == below)
            &&& line_start(text, at) == 0 ==> above == at
            &&& line_start(text, at) > 0 ==> place_of(text, above).0 == row - 1 && place_of(
                text,
                above,
            ).1 <= column && (place_of(text, above).1 == column || line_end(text, above) == above)
        }),
{
    let start = line_start(text, at);
    let end = line_end(text, at);
    law_a_line_reaches_from_break_to_break(text, at);
    lemma_places_in_a_line(text, start, at);
    if end < text.len() {
        let below = vertical_move(text, at, true);
        lemma_end_of_line(text, end + 1);
        lemma_places_in_a_line(text, start, end);
        lemma_places_in_a_line(text, end + 1, below);
        assert(line_number(text, end + 1) == line_number(text, end) + 1);
    }
    if start > 0 {
        let above = vertical_move(text, at, false);
        lemma_start_of_line(text, start - 1);
        let first = line_start(text, start - 1);
        lemma_places_in_a_line(text, first, start - 1);
        lemma_places_in_a_line(text, first, above);
        assert(line_number(text, start) == line_number(text, start - 1) + 1);
    }
}

/// Typing a character and taking it back leaves the text and the cursor as they were.
pub proof fn law_backspace_takes_back_what_was_typed(
    before: TextEditor,
    c: char,
    typed: TextEditor,
    after: TextEditor,
)
    requires
        before.wf(),
        inserted(before, seq![c], typed),
        backspaced(typed, after),
    ensures
        after.chars@ == before.chars@,
        after.cursor == before.cursor,
        typed.chars@.len() == before.chars@.len() + 1,
        !before.one_line ==> typed.chars@[before.cursor as int] == c,
{
    assert(flattened(seq![c]).len() == 1);
    assert(after.chars@ =~= before.chars@);
}

/// Deleting takes what stands behind the cursor: it does what a step to the right and going back do.
pub proof fn law_delete_is_backspace_from_behind(
    before: TextEditor,
    after: TextEditor,
    other: TextEditor,
)
    requires
        before.wf(),
        before.cursor < before.chars@.len(),
        deleted(before, after),
        backspaced(stepped(before, true), other),
    ensures
        after.chars@ == other.chars@,
        after.cursor == other.cursor && other.cursor == before.cursor,
        after.chars@.len() == before.chars@.len() - 1,
{
    assert(before.chars@.len() == before.chars.len());
}

/// A step to the right goes one character on, and one to the left undoes it.
pub proof fn law_steps_undo_one_another(before: TextEditor)
    requires
        before.wf(),
    ensures
        before.cursor < before.chars@.len() ==> stepped(before, true).cursor == before.cursor + 1
            && stepped(stepped(before, true), false) == before,
        before.cursor > 0 ==> stepped(before, false).cursor == before.cursor - 1 && stepped(
            stepped(before, false),
            true,
        ) == before,
        before.cursor == 0 ==> stepped(before, false) == before,
        before.cursor == before.chars@.len() ==> stepped(before, true) == before,
{
    assert(before.chars@.len() == before.chars.len());
}

/// A text in one line has no breaks, and is the text but for them.
pub proof fn law_flattened_text_has_no_breaks(text: Seq<char>, i: int)
    requires
        0 <= i < text.len(),
    ensures
        flattened(text).len() == text.len(),
        flattened(text)[i] != '\n' && flattened(text)[i] != '\r',
        text[i] != '\n' && text[i] != '\r' ==> flattened(text)[i] == text[i],
        text[i] == '\n' || text[i] == '\r' ==> flattened(text)[i] == ' ',
{
}

} // verus!
