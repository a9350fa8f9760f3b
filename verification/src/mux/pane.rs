//! One session hosted in a pane: its status, what it asks of the user, and where its input goes.

use crate::host_terminal::ProgressState;
use crate::input::{
    KeyEvent, MouseEvent, MouseEventKind, MouseProtocolEncoding, MouseProtocolMode,
};
use crate::lifecycle::{InputKind, LifecycleEvent};
use crate::mux::callbacks::{PaneSignalEvent, PaneSignals};
use crate::mux::keys;
use crate::mux::pty::pty_size;
use crate::strings::{
    ascii_alphanumeric, ascii_digit, chars_of, control, is_ascii_alphanumeric,
    is_ascii_digit, is_control, is_white, parse_unsigned, parse_unsigned_between, trim, trim_range,
    text_between, white,
};
use vstd::prelude::*;

verus! {

/// The number of a pane. Numbering restarts with every run of the program.
pub type PaneId = u64;

/// Where a pane is shown in the outer terminal, and how large it is.
#[derive(Clone, Copy, Debug, PartialEq, Eq, Structural)]
pub struct Viewport {
    pub x: u16,
    pub y: u16,
    pub rows: u16,
    pub cols: u16,
}

/// The viewport of a pane that was given a place and a size.
pub open spec fn pane_viewport(x: u16, y: u16, rows: u16, cols: u16) -> Viewport {
    Viewport {
        x,
        y,
        rows: if rows == 0 {
            1u16
        } else {
            rows
        },
        cols: if cols == 0 {
            1u16
        } else {
            cols
        },
    }
}

impl Viewport {
    /// Whether a cell of the outer terminal lies in the viewport.
    pub open spec fn inside(self, column: u16, row: u16) -> bool {
        self.x <= column < self.x + self.cols && self.y <= row < self.y + self.rows
    }

    /// The one-based position inside the viewport of a cell of the outer terminal, if it lies there.
    pub fn coordinates(self, column: u16, row: u16) -> (position: Option<(u16, u16)>)
        ensures
            position == (if self.inside(column, row) {
                Some(((column - self.x + 1) as u16, (row - self.y + 1) as u16))
            } else {
                None
            }),
    {
        if column < self.x || row < self.y {
            return None;
        }
        let column: u16 = column - self.x;
        let row: u16 = row - self.y;
        if column < self.cols && row < self.rows {
            Some((column + 1, row + 1))
        } else {
            None
        }
    }

    /// A coordinate moved into the range of `length` cells from `start`, one-based within it. The
    /// far edge saturates at the largest coordinate.
    pub open spec fn clamp_one(start: u16, length: u16, at: u16) -> int {
        let last = if length == 0 {
            start as int
        } else if start + length - 1 > u16::MAX {
            u16::MAX as int
        } else {
            start + length - 1
        };
        if at < start {
            1
        } else if at > last {
            last - start + 1
        } else {
            at - start + 1
        }
    }

    /// The one-based position inside the viewport that is closest to a cell of the outer terminal.
    pub fn clamped_coordinates(self, column: u16, row: u16) -> (position: (u16, u16))
        ensures
            position.0 == Viewport::clamp_one(self.x, self.cols, column),
            position.1 == Viewport::clamp_one(self.y, self.rows, row),
    {
        (
            Viewport::clamp_coordinate(self.x, self.cols, column),
            Viewport::clamp_coordinate(self.y, self.rows, row),
        )
    }

    fn clamp_coordinate(start: u16, length: u16, at: u16) -> (position: u16)
        ensures
            position == Viewport::clamp_one(start, length, at),
    {
        let last: u16 = start.saturating_add(length.saturating_sub(1));
        let clamped: u16 = if at < start {
            start
        } else if at > last {
            last
        } else {
            at
        };
        clamped - start + 1
    }

    /// The zero-based row and column inside the viewport of a cell of the outer terminal.
    pub fn cell_coordinates(self, column: u16, row: u16) -> (cell: Option<(u16, u16)>)
        ensures
            cell == (if self.inside(column, row) {
                Some(((row - self.y) as u16, (column - self.x) as u16))
            } else {
                None
            }),
    {
        if column < self.x || row < self.y {
            return None;
        }
        let column: u16 = column - self.x;
        let row: u16 = row - self.y;
        if column < self.cols && row < self.rows {
            Some((row, column))
        } else {
            None
        }
    }
}

/// Whether a pane's child runs, and how it ended if not.
#[derive(Clone, Copy, Debug, PartialEq, Eq, Structural)]
pub enum PaneStatus {
    Running,
    Exited(Option<u32>),
}

/// What one chunk of output asks the program to show at once.
#[derive(Clone, Copy, Debug, PartialEq, Eq, Structural)]
pub struct PaneSignalOutcome {
    pub bell: bool,
}

/// Something the user is told about a pane.
#[derive(Clone, Copy, Debug, PartialEq, Eq, Structural)]
pub enum PaneNotification {
    Ready,
    Question,
    PlanApproval,
    Error,
}

/// Everything needed to start a pane.
#[derive(Clone, Debug)]
pub struct PaneSpec {
    pub id: PaneId,
    pub title: String,
    pub cwd: String,
    pub session_id: String,
    pub program: String,
    pub args: Vec<String>,
    pub events_path: Option<String>,
}

/// The progress a pane reported, whether it wants attention, and which notices its current work
/// cycle has sent. A cycle begins when a pane that was not working reports progress.
#[derive(Clone, Copy, Debug, PartialEq, Eq, Structural)]
pub struct WorkCycle {
    pub working: bool,
    pub progress: ProgressState,
    pub needs_attention: bool,
    pub ready_sent: bool,
    pub error_sent: bool,
}

/// A run of signals out of one chunk of output, whether the user was looking at the pane when it
/// came, and whether the pane was waiting for the user.
pub struct SignalRun {
    pub events: Seq<PaneSignalEvent>,
    pub attended: bool,
    pub waiting: bool,
}

/// Whether notices are such as one work cycle may give: at most one that the pane is ready, at most
/// one that it failed, and no ready one behind a failure.
pub open spec fn of_one_cycle(notices: Seq<PaneNotification>) -> bool {
    &&& forall|i: int, j: int|
        #![trigger notices[i], notices[j]]
        0 <= i < j < notices.len() ==> notices[j] != PaneNotification::Ready || (notices[i]
            != PaneNotification::Ready && notices[i] != PaneNotification::Error)
    &&& forall|i: int, j: int|
        #![trigger notices[i], notices[j]]
        0 <= i < j < notices.len() ==> notices[j] != PaneNotification::Error || notices[i]
            != PaneNotification::Error
}

impl WorkCycle {
    /// The cycle of a pane that has reported nothing.
    pub open spec fn spec_idle() -> WorkCycle {
        WorkCycle {
            working: false,
            progress: ProgressState::Clear,
            needs_attention: false,
            ready_sent: false,
            error_sent: false,
        }
    }

    /// Whether a signal begins a new cycle.
    pub open spec fn begins(self, event: PaneSignalEvent) -> bool {
        event matches PaneSignalEvent::Progress(p) && p != ProgressState::Clear && !self.working
    }

    /// The notice a signal gives rise to. While the pane waits for the user nothing is announced as
    /// ready, and after an error in the same cycle neither.
    pub open spec fn notice(self, event: PaneSignalEvent, waiting: bool) -> Option<PaneNotification> {
        let ready_due = !waiting && !self.error_sent && !self.ready_sent;
        match event {
            PaneSignalEvent::Progress(ProgressState::Error) => if self.working
                && self.error_sent {
                None
            } else {
                Some(PaneNotification::Error)
            },
            PaneSignalEvent::Progress(ProgressState::Clear) => if self.working && ready_due {
                Some(PaneNotification::Ready)
            } else {
                None
            },
            PaneSignalEvent::Progress(_) => None,
            PaneSignalEvent::Bell => if ready_due {
                Some(PaneNotification::Ready)
            } else {
                None
            },
        }
    }

    /// The cycle after a signal. `attended` says whether the user is looking at the pane, `waiting`
    /// whether the pane waits for the user.
    pub open spec fn after(self, event: PaneSignalEvent, attended: bool, waiting: bool) -> WorkCycle {
        let sent = self.notice(event, waiting);
        let fresh = self.begins(event);
        let flagged = WorkCycle {
            ready_sent: (!fresh && self.ready_sent) || sent == Some(PaneNotification::Ready),
            error_sent: (!fresh && self.error_sent) || sent == Some(PaneNotification::Error),
            ..self
        };
        match event {
            PaneSignalEvent::Progress(p) => if p != ProgressState::Clear {
                WorkCycle {
                    working: true,
                    progress: p,
                    needs_attention: self.needs_attention && waiting,
                    ..flagged
                }
            } else if self.working {
                WorkCycle {
                    working: false,
                    progress: p,
                    needs_attention: if waiting {
                        self.needs_attention
                    } else {
                        !attended
                    },
                    ..flagged
                }
            } else {
                WorkCycle { progress: p, ..flagged }
            },
            PaneSignalEvent::Bell => WorkCycle {
                needs_attention: self.needs_attention || (!attended && !waiting),
                ..flagged
            },
        }
    }

    /// The cycle after a run of signals.
    pub open spec fn after_all(
        self,
        events: Seq<PaneSignalEvent>,
        attended: bool,
        waiting: bool,
    ) -> WorkCycle
        decreases events.len(),
    {
        if events.len() == 0 {
            self
        } else {
            self.after_all(events.drop_last(), attended, waiting).after(
                events.last(),
                attended,
                waiting,
            )
        }
    }

    /// The notices of a run of signals, in order.
    pub open spec fn notices(
        self,
        events: Seq<PaneSignalEvent>,
        attended: bool,
        waiting: bool,
    ) -> Seq<PaneNotification>
        decreases events.len(),
    {
        if events.len() == 0 {
            Seq::empty()
        } else {
            let before = self.notices(events.drop_last(), attended, waiting);
            match self.after_all(events.drop_last(), attended, waiting).notice(
                events.last(),
                waiting,
            ) {
                Some(n) => before.push(n),
                None => before,
            }
        }
    }

    /// Whether a run of signals begins a cycle somewhere.
    pub open spec fn begins_within(
        self,
        events: Seq<PaneSignalEvent>,
        attended: bool,
        waiting: bool,
    ) -> bool
        decreases events.len(),
    {
        events.len() > 0 && (self.begins_within(events.drop_last(), attended, waiting)
            || self.after_all(events.drop_last(), attended, waiting).begins(events.last()))
    }

    /// The cycle after several runs of signals, one behind the other.
    pub open spec fn after_runs(self, runs: Seq<SignalRun>) -> WorkCycle
        decreases runs.len(),
    {
        if runs.len() == 0 {
            self
        } else {
            let run = runs.last();
            self.after_runs(runs.drop_last()).after_all(run.events, run.attended, run.waiting)
        }
    }

    /// The notices of several runs of signals, in order.
    pub open spec fn notices_of_runs(self, runs: Seq<SignalRun>) -> Seq<PaneNotification>
        decreases runs.len(),
    {
        if runs.len() == 0 {
            Seq::empty()
        } else {
            let run = runs.last();
            self.notices_of_runs(runs.drop_last()) + self.after_runs(runs.drop_last()).notices(
                run.events,
                run.attended,
                run.waiting,
            )
        }
    }

    /// Whether one of several runs of signals begins a cycle somewhere.
    pub open spec fn begins_within_runs(self, runs: Seq<SignalRun>) -> bool
        decreases runs.len(),
    {
        runs.len() > 0 && {
            let run = runs.last();
            self.begins_within_runs(runs.drop_last()) || self.after_runs(
                runs.drop_last(),
            ).begins_within(run.events, run.attended, run.waiting)
        }
    }

    /// The cycle of a pane that has reported nothing.
    pub fn idle() -> (cycle: WorkCycle)
        ensures
            cycle == WorkCycle::spec_idle(),
    {
        WorkCycle {
            working: false,
            progress: ProgressState::Clear,
            needs_attention: false,
            ready_sent: false,
            error_sent: false,
        }
    }

    /// Takes in one signal and says which notice it gives rise to.
    pub fn apply(&mut self, event: PaneSignalEvent, attended: bool, waiting: bool) -> (sent: Option<
        PaneNotification,
    >)
        ensures
            *final(self) == old(self).after(event, attended, waiting),
            sent == old(self).notice(event, waiting),
    {
        match event {
            PaneSignalEvent::Progress(progress) => {
                if progress.is_working() {
                    self.progress = progress;
                    if !self.working {
                        self.ready_sent = false;
                        self.error_sent = false;
                    }
                    self.working = true;
                    if !waiting {
                        self.needs_attention = false;
                    }
                    if progress == ProgressState::Error && !self.error_sent {
                        self.error_sent = true;
                        return Some(PaneNotification::Error);
                    }
                    None
                } else if self.working {
                    self.progress = ProgressState::Clear;
                    self.working = false;
                    if !waiting {
                        self.needs_attention = !attended;
                    }
                    self.announce_ready(waiting)
                } else {
                    self.progress = ProgressState::Clear;
                    None
                }
            },
            PaneSignalEvent::Bell => {
                if !attended && !waiting {
                    self.needs_attention = true;
                }
                self.announce_ready(waiting)
            },
        }
    }

    fn announce_ready(&mut self, waiting: bool) -> (sent: Option<PaneNotification>)
        ensures
            sent == (if !waiting && !old(self).error_sent && !old(self).ready_sent {
                Some(PaneNotification::Ready)
            } else {
                None
            }),
            *final(self) == (WorkCycle {
                ready_sent: old(self).ready_sent || sent is Some,
                ..*old(self)
            }),
    {
        if !waiting && !self.error_sent && !self.ready_sent {
            self.ready_sent = true;
            Some(PaneNotification::Ready)
        } else {
            None
        }
    }
}

/// The contents of a screen: for each row the text of each cell, empty where a cell is blank.
#[derive(Clone, Debug)]
pub struct ScreenCells {
    pub rows: Vec<Vec<String>>,
}

/// The character that stands for a cell: its first one, or a space.
pub open spec fn cell_char(contents: Seq<char>) -> char {
    if contents.len() > 0 {
        contents[0]
    } else {
        ' '
    }
}

/// The characters of a screen row.
pub open spec fn row_text(row: Seq<String>) -> Seq<char> {
    row.map_values(|cell: String| cell_char(cell@))
}

/// Whether a text has a character that can be seen.
pub open spec fn visible_text(text: Seq<char>) -> bool {
    exists|i: int| 0 <= i < text.len() && !white(#[trigger] text[i])
}

impl ScreenCells {
    /// Whether anything can be seen on the screen.
    pub open spec fn shows_text(self) -> bool {
        exists|r: int, c: int|
            0 <= r < self.rows@.len() && 0 <= c < self.rows@[r]@.len() && visible_text(
                (#[trigger] self.rows@[r]@[c])@,
            )
    }

    /// Whether anything can be seen on the screen.
    pub fn has_visible_text(&self) -> (r: bool)
        ensures
            r == self.shows_text(),
    {
        let mut row: usize = 0;
        while row < self.rows.len()
            invariant
                row <= self.rows@.len(),
                forall|r: int, c: int|
                    0 <= r < row && 0 <= c < self.rows@[r]@.len() ==> !visible_text(
                        (#[trigger] self.rows@[r]@[c])@,
                    ),
            decreases self.rows@.len() - row,
        {
            let cells = &self.rows[row];
            let mut column: usize = 0;
            while column < cells.len()
                invariant
                    row < self.rows@.len(),
                    cells == self.rows@[row as int],
                    column <= cells@.len(),
                    forall|c: int| 0 <= c < column ==> !visible_text((#[trigger] cells@[c])@),
                decreases cells@.len() - column,
            {
                if has_visible_character(&cells[column]) {
                    assert(visible_text(self.rows@[row as int]@[column as int]@));
                    return true;
                }
                column = column + 1;
            }
            row = row + 1;
        }
        false
    }

    /// The characters of one row; a row that is not there has none.
    pub fn row_characters(&self, row: usize) -> (characters: Vec<char>)
        ensures
            row < self.rows@.len() ==> characters@ == row_text(self.rows@[row as int]@),
            row >= self.rows@.len() ==> characters@.len() == 0,
    {
        let mut characters: Vec<char> = Vec::new();
        if row >= self.rows.len() {
            return characters;
        }
        let cells = &self.rows[row];
        let mut column: usize = 0;
        while column < cells.len()
            invariant
                column <= cells@.len(),
                characters@ == row_text(cells@.take(column as int)),
            decreases cells@.len() - column,
        {
            let contents = chars_of(cells[column].as_str());
            if contents.len() > 0 {
                characters.push(contents[0]);
            } else {
                characters.push(' ');
            }
            assert(cells@.take(column + 1) == cells@.take(column as int).push(
                cells@[column as int],
            ));
            assert(characters@ == row_text(cells@.take(column + 1)));
            column = column + 1;
        }
        assert(cells@.take(column as int) == cells@);
        characters
    }
}

fn has_visible_character(text: &String) -> (r: bool)
    ensures
        r == visible_text(text@),
{
    let characters = chars_of(text.as_str());
    let mut i: usize = 0;
    while i < characters.len()
        invariant
            i <= characters@.len(),
            characters@ == text@,
            forall|j: int| 0 <= j < i ==> white(#[trigger] text@[j]),
        decreases characters@.len() - i,
    {
        if !is_white(characters[i]) {
            assert(!white(text@[i as int]));
            return true;
        }
        i = i + 1;
    }
    false
}

/// Where the run of digits that starts at `i` ends.
pub open spec fn digits_end(text: Seq<char>, i: int) -> int
    decreases text.len() - i,
{
    if 0 <= i < text.len() && ascii_digit(text[i]) {
        digits_end(text, i + 1)
    } else {
        i
    }
}

/// Where the run of digits that ends before `i` starts.
pub open spec fn digits_start(text: Seq<char>, i: int) -> int
    decreases i,
{
    if 0 < i <= text.len() && ascii_digit(text[i - 1]) {
        digits_start(text, i - 1)
    } else {
        i
    }
}

/// The positive number written in the digits behind position `hash`, where they fit 64 bits.
pub open spec fn number_behind(text: Seq<char>, hash: int) -> Option<u64> {
    let end = digits_end(text, hash + 1);
    match parse_unsigned(text.subrange(hash + 1, end), u64::MAX as nat) {
        Some(n) => if n > 0 {
            Some(n as u64)
        } else {
            None
        },
        None => None,
    }
}

/// The reference that starts at position `hash`: a hash sign with digits behind it, and no letter or
/// digit before it, which would make it part of a longer token.
pub open spec fn reference_from(text: Seq<char>, hash: int) -> Option<u64> {
    if 0 <= hash < text.len() && text[hash] == '#' && !(hash > 0 && ascii_alphanumeric(
        text[hash - 1],
    )) {
        number_behind(text, hash)
    } else {
        None
    }
}

/// The reference under a position: the position is on a hash sign, or on a digit of the run behind
/// one.
pub open spec fn reference_under(text: Seq<char>, at: int) -> Option<u64> {
    if !(0 <= at < text.len()) {
        None
    } else {
        let hash = if ascii_digit(text[at]) {
            digits_start(text, at) - 1
        } else {
            at
        };
        if 0 <= hash && text[hash] == '#' {
            number_behind(text, hash)
        } else {
            None
        }
    }
}

/// Whether a number is referred to somewhere on a screen.
pub open spec fn referred(screen: ScreenCells, number: u64) -> bool {
    exists|r: int, i: int|
        0 <= r < screen.rows@.len() && #[trigger] reference_from(row_text(screen.rows@[r]@), i)
            == Some(number)
}

/// Whether numbers stand in strictly ascending order, so that none occurs twice.
pub open spec fn ascending(numbers: Seq<u64>) -> bool {
    forall|i: int, j: int| 0 <= i < j < numbers.len() ==> numbers[i] < numbers[j]
}

proof fn lemma_digits_end(text: Seq<char>, i: int)
    requires
        0 <= i <= text.len(),
    ensures
        i <= digits_end(text, i) <= text.len(),
        forall|j: int| i <= j < digits_end(text, i) ==> ascii_digit(#[trigger] text[j]),
    decreases text.len() - i,
{
    if i < text.len() && ascii_digit(text[i]) {
        lemma_digits_end(text, i + 1);
    }
}

fn find_digits_end(text: &Vec<char>, from: usize) -> (end: usize)
    requires
        from <= text@.len(),
    ensures
        end == digits_end(text@, from as int),
        from <= end <= text@.len(),
{
    let mut end: usize = from;
    while end < text.len() && is_ascii_digit(text[end])
        invariant
            from <= end <= text@.len(),
            digits_end(text@, from as int) == digits_end(text@, end as int),
        decreases text@.len() - end,
    {
        end = end + 1;
    }
    end
}

fn read_number_behind(text: &Vec<char>, hash: usize) -> (number: Option<u64>)
    requires
        hash < text@.len(),
    ensures
        number == number_behind(text@, hash as int),
{
    let length: usize = text.len();
    assert(hash < length);
    let end = find_digits_end(text, hash + 1);
    match parse_unsigned_between(text, hash + 1, end, u64::MAX) {
        Some(n) => {
            if n > 0 {
                Some(n)
            } else {
                None
            }
        },
        None => None,
    }
}

/// Adds a number to an ascending list, unless it is there already.
fn insert_ascending(numbers: &mut Vec<u64>, number: u64)
    requires
        ascending(old(numbers)@),
    ensures
        ascending(final(numbers)@),
        forall|n: u64|
            final(numbers)@.contains(n) <==> (n == number || old(numbers)@.contains(n)),
{
    let mut at: usize = 0;
    while at < numbers.len() && numbers[at] < number
        invariant
            at <= numbers@.len(),
            ascending(numbers@),
            forall|j: int| 0 <= j < at ==> numbers@[j] < number,
        decreases numbers@.len() - at,
    {
        at = at + 1;
    }
    if at < numbers.len() && numbers[at] == number {
        assert(numbers@.contains(number));
        return;
    }
    let ghost before = numbers@;
    numbers.insert(at, number);
    proof {
        let after = before.insert(at as int, number);
        assert forall|n: u64| after.contains(n) <==> (n == number || before.contains(n)) by {
            if after.contains(n) {
                let i = choose|i: int| 0 <= i < after.len() && after[i] == n;
                if i < at {
                    assert(before[i] == n);
                } else if i > at {
                    assert(before[i - 1] == n);
                }
            }
            if n == number {
                assert(after[at as int] == n);
            }
            if before.contains(n) {
                let i = choose|i: int| 0 <= i < before.len() && before[i] == n;
                if i < at {
                    assert(after[i] == n);
                } else {
                    assert(after[i + 1] == n);
                }
            }
        }
    }
}

/// Every distinct reference on a screen, in ascending order.
pub fn github_references(screen: &ScreenCells) -> (found: Vec<u64>)
    ensures
        ascending(found@),
        forall|n: u64| #[trigger] found@.contains(n) <==> referred(*screen, n),
{
    let mut found: Vec<u64> = Vec::new();
    let mut row: usize = 0;
    while row < screen.rows.len()
        invariant
            row <= screen.rows@.len(),
            ascending(found@),
            forall|n: u64| #[trigger]
                found@.contains(n) <==> exists|r: int, i: int|
                    0 <= r < row && #[trigger] reference_from(row_text(screen.rows@[r]@), i)
                        == Some(n),
        decreases screen.rows@.len() - row,
    {
        let characters = screen.row_characters(row);
        let ghost text = row_text(screen.rows@[row as int]@);
        let ghost before = found@;
        let mut index: usize = 0;
        while index < characters.len()
            invariant
                row < screen.rows@.len(),
                text == row_text(screen.rows@[row as int]@),
                characters@ == text,
                index <= characters@.len(),
                ascending(found@),
                forall|n: u64| #[trigger]
                    found@.contains(n) <==> (before.contains(n) || exists|i: int|
                        0 <= i < index && #[trigger] reference_from(text, i) == Some(n)),
            decreases characters@.len() - index,
        {
            let ghost earlier = found@;
            let glued = index > 0 && is_ascii_alphanumeric(characters[index - 1]);
            let mut added: Option<u64> = None;
            if characters[index] == '#' && !glued {
                added = read_number_behind(&characters, index);
            }
            assert(added == reference_from(text, index as int));
            if let Some(number) = added {
                insert_ascending(&mut found, number);
            }
            proof {
                assert forall|n: u64| #[trigger]
                    found@.contains(n) <==> (before.contains(n) || exists|i: int|
                        0 <= i < index + 1 && #[trigger] reference_from(text, i) == Some(n)) by {
                    assert(found@.contains(n) <==> (earlier.contains(n) || added == Some(n)));
                    if earlier.contains(n) && !before.contains(n) {
                        let i = choose|i: int|
                            0 <= i < index && #[trigger] reference_from(text, i) == Some(n);
                        assert(0 <= i < index + 1 && reference_from(text, i) == Some(n));
                    }
                    if exists|i: int|
                        0 <= i < index + 1 && #[trigger] reference_from(text, i) == Some(n) {
                        let i = choose|i: int|
                            0 <= i < index + 1 && #[trigger] reference_from(text, i) == Some(n);
                        if i < index {
                            assert(earlier.contains(n));
                        }
                    }
                }
            }
            index = index + 1;
        }
        proof {
            assert forall|n: u64| #[trigger]
                found@.contains(n) <==> exists|r: int, i: int|
                    0 <= r < row + 1 && #[trigger] reference_from(row_text(screen.rows@[r]@), i)
                        == Some(n) by {
                if found@.contains(n) {
                    if before.contains(n) {
                        let (r, i) = choose|r: int, i: int|
                            0 <= r < row && #[trigger] reference_from(
                                row_text(screen.rows@[r]@),
                                i,
                            ) == Some(n);
                        assert(0 <= r < row + 1 && reference_from(row_text(screen.rows@[r]@), i)
                            == Some(n));
                    } else {
                        let i = choose|i: int|
                            0 <= i < index && #[trigger] reference_from(text, i) == Some(n);
                        assert(reference_from(row_text(screen.rows@[row as int]@), i) == Some(n));
                    }
                }
                if exists|r: int, i: int|
                    0 <= r < row + 1 && #[trigger] reference_from(row_text(screen.rows@[r]@), i)
                        == Some(n) {
                    let (r, i) = choose|r: int, i: int|
                        0 <= r < row + 1 && #[trigger] reference_from(row_text(screen.rows@[r]@), i)
                            == Some(n);
                    if r < row {
                        assert(before.contains(n));
                    } else {
                        assert(0 <= i < index && reference_from(text, i) == Some(n));
                    }
                }
            }
        }
        row = row + 1;
    }
    found
}

proof fn lemma_digits_start(text: Seq<char>, i: int)
    requires
        0 <= i <= text.len(),
    ensures
        0 <= digits_start(text, i) <= i,
    decreases i,
{
    if 0 < i && ascii_digit(text[i - 1]) {
        lemma_digits_start(text, i - 1);
    }
}

/// The reference under a cell of a screen.
pub fn github_reference_at(screen: &ScreenCells, row: usize, column: usize) -> (number: Option<u64>)
    ensures
        number == (if row < screen.rows@.len() {
            reference_under(row_text(screen.rows@[row as int]@), column as int)
        } else {
            None
        }),
{
    let characters = screen.row_characters(row);
    if column >= characters.len() {
        return None;
    }
    let clicked = characters[column];
    if clicked != '#' && !is_ascii_digit(clicked) {
        return None;
    }
    let mut hash: usize = column;
    if is_ascii_digit(clicked) {
        while hash > 0 && is_ascii_digit(characters[hash - 1])
            invariant
                hash <= column < characters@.len(),
                digits_start(characters@, column as int) == digits_start(characters@, hash as int),
            decreases hash,
        {
            hash = hash - 1;
        }
        if hash == 0 {
            return None;
        }
        hash = hash - 1;
    }
    if characters[hash] != '#' {
        return None;
    }
    read_number_behind(&characters, hash)
}

/// One session hosted in a pane: everything the program knows of it beside its screen and process.
pub struct Pane {
    pub id: PaneId,
    /// Session id. It is known before the child starts, so a pane can always key per-session state
    /// on something stable and unique.
    pub session_id: String,
    pub title: String,
    pub cwd: String,
    pub status: PaneStatus,
    pub has_visible_output: bool,
    pub mouse_captured: bool,
    pub viewport: Viewport,
    pub cycle: WorkCycle,
    pub pending_inputs: Vec<(String, InputKind)>,
}

/// What the child of a pane asked of its terminal.
#[derive(Clone, Copy, Debug, PartialEq, Eq, Structural)]
pub struct ScreenModes {
    pub application_cursor: bool,
    pub bracketed_paste: bool,
    pub mouse_mode: MouseProtocolMode,
    pub mouse_encoding: MouseProtocolEncoding,
}

/// What a mouse event over a pane comes to.
#[derive(Clone, Debug, PartialEq, Eq)]
pub enum MouseAction {
    Nothing,
    /// Scroll the pane's history: up is into the past.
    Scroll { up: bool },
    /// Write a report to the child.
    Write(Vec<u8>),
}

/// Why a snippet was not pasted into a pane.
#[derive(Clone, Copy, Debug, PartialEq, Eq, Structural)]
pub enum SnippetRefusal {
    NotRunning,
    Empty,
    ControlCharacters,
    MultilineNotReady,
}

impl SnippetRefusal {
    /// The message for the user.
    pub open spec fn text(self) -> Seq<char> {
        match self {
            SnippetRefusal::NotRunning => "the focused session is no longer running"@,
            SnippetRefusal::Empty => "the snippet prompt is empty"@,
            SnippetRefusal::ControlCharacters =>
                "snippet prompts cannot contain terminal control characters"@,
            SnippetRefusal::MultilineNotReady =>
                "Copilot is not ready for multiline paste yet; wait for startup to finish"@,
        }
    }

    /// The message for the user.
    pub fn message(self) -> (message: String)
        ensures
            message@ == self.text(),
    {
        match self {
            SnippetRefusal::NotRunning => "the focused session is no longer running".to_owned(),
            SnippetRefusal::Empty => "the snippet prompt is empty".to_owned(),
            SnippetRefusal::ControlCharacters => {
                "snippet prompts cannot contain terminal control characters".to_owned()
            },
            SnippetRefusal::MultilineNotReady => {
                "Copilot is not ready for multiline paste yet; wait for startup to finish".to_owned()
            },
        }
    }
}

/// The pending inputs by the views of their ids.
pub open spec fn pending_view(pending: Seq<(String, InputKind)>) -> Seq<(Seq<char>, InputKind)> {
    pending.map_values(|p: (String, InputKind)| (p.0@, p.1))
}

/// Whether an input request with this id is pending.
pub open spec fn is_pending(pending: Seq<(Seq<char>, InputKind)>, id: Seq<char>) -> bool {
    exists|i: int| 0 <= i < pending.len() && (#[trigger] pending[i]).0 == id
}

/// Whether a request is another one than that of an id and a kind.
pub open spec fn other_request(id: Seq<char>, kind: InputKind) -> spec_fn(
    (Seq<char>, InputKind),
) -> bool {
    |p: (Seq<char>, InputKind)| p.0 != id || p.1 != kind
}

/// The requests that stay pending when one of an id and a kind is resolved.
pub open spec fn still_pending(
    pending: Seq<(Seq<char>, InputKind)>,
    id: Seq<char>,
    kind: InputKind,
) -> Seq<(Seq<char>, InputKind)> {
    pending.filter(other_request(id, kind))
}

/// The notice that a request for input gives rise to.
pub open spec fn input_notice(kind: InputKind) -> PaneNotification {
    match kind {
        InputKind::Question => PaneNotification::Question,
        InputKind::PlanApproval => PaneNotification::PlanApproval,
    }
}

/// The requests pending after a lifecycle event.
pub open spec fn pending_after(
    pending: Seq<(Seq<char>, InputKind)>,
    event: LifecycleEvent,
) -> Seq<(Seq<char>, InputKind)> {
    match event {
        LifecycleEvent::InputRequested { tool_call_id, kind } => if is_pending(
            pending,
            tool_call_id@,
        ) {
            pending
        } else {
            pending.push((tool_call_id@, kind))
        },
        LifecycleEvent::InputResolved { tool_call_id, kind } => still_pending(
            pending,
            tool_call_id@,
            kind,
        ),
        LifecycleEvent::Reset => Seq::empty(),
    }
}

/// The notice of a lifecycle event: a request for input is announced once.
pub open spec fn lifecycle_notice(
    pending: Seq<(Seq<char>, InputKind)>,
    event: LifecycleEvent,
) -> Option<PaneNotification> {
    match event {
        LifecycleEvent::InputRequested { tool_call_id, kind } => if is_pending(
            pending,
            tool_call_id@,
        ) {
            None
        } else {
            Some(input_notice(kind))
        },
        _ => None,
    }
}

/// The work cycle after a lifecycle event. A request counts as the cycle's ready notice; when the
/// last pending request goes, attention and the sent notices are forgotten.
pub open spec fn cycle_after(
    cycle: WorkCycle,
    pending: Seq<(Seq<char>, InputKind)>,
    event: LifecycleEvent,
) -> WorkCycle {
    if lifecycle_notice(pending, event) is Some {
        WorkCycle { ready_sent: true, ..cycle }
    } else if pending.len() > 0 && pending_after(pending, event).len() == 0 {
        WorkCycle { needs_attention: false, ready_sent: false, error_sent: false, ..cycle }
    } else {
        cycle
    }
}

/// Whether a text has a control character other than the three whitespace ones that prompts may
/// hold.
pub open spec fn has_terminal_control(text: Seq<char>) -> bool {
    exists|i: int|
        0 <= i < text.len() && control(#[trigger] text[i]) && text[i] != '\r' && text[i] != '\n'
            && text[i] != '\t'
}

/// Whether a text has a line break.
pub open spec fn has_line_break(text: Seq<char>) -> bool {
    text.contains('\r') || text.contains('\n')
}

/// Why a snippet cannot be pasted, in the order in which the reasons count.
pub open spec fn snippet_refusal(running: bool, text: Seq<char>, bracketed: bool) -> Option<
    SnippetRefusal,
> {
    if !running {
        Some(SnippetRefusal::NotRunning)
    } else if text.len() == 0 {
        Some(SnippetRefusal::Empty)
    } else if has_terminal_control(text) {
        Some(SnippetRefusal::ControlCharacters)
    } else if has_line_break(text) && !bracketed {
        Some(SnippetRefusal::MultilineNotReady)
    } else {
        None
    }
}

/// The position a mouse report gives: the one inside the viewport, or the closest one while a
/// button that went down inside is held.
pub open spec fn report_position(
    viewport: Viewport,
    captured: bool,
    event: MouseEvent,
) -> Option<(u16, u16)> {
    if viewport.inside(event.column, event.row) {
        Some(((event.column - viewport.x + 1) as u16, (event.row - viewport.y + 1) as u16))
    } else if captured && (event.kind is Drag || event.kind is Up) {
        Some(
            (
                Viewport::clamp_one(viewport.x, viewport.cols, event.column) as u16,
                Viewport::clamp_one(viewport.y, viewport.rows, event.row) as u16,
            ),
        )
    } else {
        None
    }
}

/// Whether a button is held that went down inside the viewport, after a mouse event.
pub open spec fn captured_after(viewport: Viewport, captured: bool, event: MouseEvent) -> bool {
    if event.kind is Up {
        false
    } else if event.kind is Down && viewport.inside(event.column, event.row) {
        true
    } else {
        captured
    }
}

/// The report to write to a child that asked for mouse events.
pub open spec fn mouse_report(
    viewport: Viewport,
    captured: bool,
    event: MouseEvent,
    mode: MouseProtocolMode,
    encoding: MouseProtocolEncoding,
) -> Option<Seq<u8>> {
    match report_position(viewport, captured, event) {
        Some(position) => keys::mouse_bytes(event, position, mode, encoding),
        None => None,
    }
}

/// Routes a mouse event over a viewport whose child asked for mouse events in some mode. A child
/// that asked for none leaves the wheel to the history.
pub fn route_mouse(
    viewport: Viewport,
    captured: &mut bool,
    event: MouseEvent,
    mode: MouseProtocolMode,
    encoding: MouseProtocolEncoding,
) -> (action: MouseAction)
    ensures
        mode == MouseProtocolMode::Off ==> {
            &&& *final(captured) == *old(captured)
            &&& action == (if viewport.inside(event.column, event.row) && (event.kind is ScrollUp
                || event.kind is ScrollDown) {
                MouseAction::Scroll { up: event.kind is ScrollUp }
            } else {
                MouseAction::Nothing
            })
        },
        mode != MouseProtocolMode::Off ==> {
            &&& *final(captured) == captured_after(viewport, *old(captured), event)
            &&& match mouse_report(viewport, *old(captured), event, mode, encoding) {
                Some(bytes) => action matches MouseAction::Write(b) && b@ == bytes,
                None => action == MouseAction::Nothing,
            }
        },
{
    let inside = viewport.coordinates(event.column, event.row);
    if mode == MouseProtocolMode::Off {
        if inside.is_some() {
            return match event.kind {
                MouseEventKind::ScrollUp => MouseAction::Scroll { up: true },
                MouseEventKind::ScrollDown => MouseAction::Scroll { up: false },
                _ => MouseAction::Nothing,
            };
        }
        return MouseAction::Nothing;
    }
    let (down, up, drag): (bool, bool, bool) = match event.kind {
        MouseEventKind::Down(_) => (true, false, false),
        MouseEventKind::Up(_) => (false, true, false),
        MouseEventKind::Drag(_) => (false, false, true),
        _ => (false, false, false),
    };
    if down && inside.is_some() {
        *captured = true;
    }
    let position = match inside {
        Some(p) => Some(p),
        None => {
            if *captured && (drag || up) {
                Some(viewport.clamped_coordinates(event.column, event.row))
            } else {
                None
            }
        },
    };
    if up {
        *captured = false;
    }
    match position {
        Some(p) => match keys::encode_mouse(event, p, mode, encoding) {
            Some(bytes) => MouseAction::Write(bytes),
            None => MouseAction::Nothing,
        },
        None => MouseAction::Nothing,
    }
}

/// Scrolls a history position by three rows: into the past up to the largest position, or towards
/// the present down to zero.
pub fn scroll_position(current: usize, up: bool) -> (next: usize)
    ensures
        up ==> next == (if current + 3 > usize::MAX { usize::MAX as int } else { current + 3 }),
        !up ==> next == (if current < 3 { 0int } else { current - 3 }),
{
    if up {
        current.saturating_add(3)
    } else {
        current.saturating_sub(3)
    }
}

proof fn lemma_pending_push(pending: Seq<(String, InputKind)>, p: (String, InputKind))
    ensures
        pending_view(pending.push(p)) == pending_view(pending).push((p.0@, p.1)),
{
    assert(pending_view(pending.push(p)) =~= pending_view(pending).push((p.0@, p.1)));
}

impl Pane {
    /// The pane of a child that was started as specified, in a terminal of the given size.
    pub fn spawn(spec: PaneSpec, rows: u16, cols: u16) -> (pane: Pane)
        ensures
            pane.id == spec.id,
            pane.session_id == spec.session_id,
            pane.title == spec.title,
            pane.cwd == spec.cwd,
            pane.status == PaneStatus::Running,
            !pane.has_visible_output,
            !pane.mouse_captured,
            pane.viewport == (Viewport {
                x: 0,
                y: 0,
                rows: if rows == 0 { 1u16 } else { rows },
                cols: if cols == 0 { 1u16 } else { cols },
            }),
            pane.cycle == WorkCycle::spec_idle(),
            pane.pending_inputs@.len() == 0,
    {
        let size = pty_size(rows, cols);
        Pane {
            id: spec.id,
            session_id: spec.session_id,
            title: spec.title,
            cwd: spec.cwd,
            status: PaneStatus::Running,
            has_visible_output: false,
            mouse_captured: false,
            viewport: Viewport { x: 0, y: 0, rows: size.rows, cols: size.cols },
            cycle: WorkCycle::idle(),
            pending_inputs: Vec::new(),
        }
    }

    /// Whether the child runs.
    pub fn is_running(&self) -> (r: bool)
        ensures
            r == (self.status == PaneStatus::Running),
    {
        self.status == PaneStatus::Running
    }

    /// Whether the child reports work in progress.
    pub fn is_working(&self) -> (r: bool)
        ensures
            r == self.cycle.working,
    {
        self.cycle.working
    }

    /// Whether the pane waits for the user.
    pub open spec fn waiting(&self) -> bool {
        self.pending_inputs@.len() > 0
    }

    /// The progress that is shown for the pane.
    pub open spec fn shown_progress(&self) -> ProgressState {
        if self.waiting() {
            ProgressState::Clear
        } else {
            self.cycle.progress
        }
    }

    /// Whether the pane is marked as wanting attention.
    pub open spec fn marked(&self) -> bool {
        self.cycle.needs_attention || self.waiting()
    }

    /// The progress that is shown for the pane: none while it waits for the user.
    pub fn effective_progress_state(&self) -> (state: ProgressState)
        ensures
            state == self.shown_progress(),
    {
        if self.requires_user_action() {
            ProgressState::Clear
        } else {
            self.cycle.progress
        }
    }

    /// Records a progress report that arrived ahead of the output it belongs to.
    pub fn record_progress_state(&mut self, state: ProgressState)
        ensures
            *final(self) == (Pane {
                cycle: WorkCycle { progress: state, ..old(self).cycle },
                ..*old(self)
            }),
    {
        self.cycle.progress = state;
    }

    /// True while the child has produced nothing visible yet.
    pub fn is_blank(&self) -> (r: bool)
        ensures
            r == !self.has_visible_output,
    {
        !self.has_visible_output
    }

    /// Notes what is on the screen now. Once something was visible the pane stays ready.
    pub fn note_screen(&mut self, screen: &ScreenCells)
        ensures
            *final(self) == (Pane {
                has_visible_output: old(self).has_visible_output || screen.shows_text(),
                ..*old(self)
            }),
    {
        if !self.has_visible_output && screen.has_visible_text() {
            self.has_visible_output = true;
        }
    }

    /// The child has ended: nothing is in progress and nothing is waited for any more.
    pub fn mark_exited(&mut self, code: Option<u32>)
        ensures
            final(self).pending_inputs@.len() == 0,
            *final(self) == (Pane {
                status: PaneStatus::Exited(code),
                cycle: WorkCycle {
                    working: false,
                    progress: ProgressState::Clear,
                    ..old(self).cycle
                },
                pending_inputs: final(self).pending_inputs,
                ..*old(self)
            }),
    {
        self.status = PaneStatus::Exited(code);
        self.cycle.working = false;
        self.cycle.progress = ProgressState::Clear;
        self.pending_inputs.clear();
    }

    /// The reference under a cell of the outer terminal.
    pub fn github_reference_at(&self, screen: &ScreenCells, column: u16, row: u16) -> (number: Option<
        u64,
    >)
        ensures
            number == (if self.viewport.inside(column, row) && row - self.viewport.y
                < screen.rows@.len() {
                reference_under(
                    row_text(screen.rows@[row - self.viewport.y]@),
                    column - self.viewport.x,
                )
            } else {
                None
            }),
    {
        match self.viewport.cell_coordinates(column, row) {
            Some((row, column)) => github_reference_at(screen, row as usize, column as usize),
            None => None,
        }
    }

    /// Applies title, progress and bell signals captured from one chunk of output.
    pub fn apply_signals(&mut self, signals: PaneSignals, attended: bool) -> (r: (
        PaneSignalOutcome,
        Vec<PaneNotification>,
    ))
        ensures
            r.0.bell == signals.events@.contains(PaneSignalEvent::Bell),
            r.1@ == old(self).cycle.notices(signals.events@, attended, old(self).waiting()),
            final(self).cycle == old(self).cycle.after_all(
                signals.events@,
                attended,
                old(self).waiting(),
            ),
            match signals.title {
                Some(title) if trim(title@).len() > 0 => final(self).title@ == trim(title@),
                _ => final(self).title == old(self).title,
            },
            *final(self) == (Pane {
                title: final(self).title,
                cycle: final(self).cycle,
                ..*old(self)
            }),
    {
        let mut bell = false;
        let mut notifications: Vec<PaneNotification> = Vec::new();
        if let Some(title) = &signals.title {
            let characters = chars_of(title.as_str());
            let range = trim_range(&characters);
            if range.0 < range.1 {
                self.title = text_between(&characters, range.0, range.1);
            }
        }
        let waiting = self.requires_user_action();
        let ghost start = *self;
        let ghost events = signals.events@;
        let mut i: usize = 0;
        while i < signals.events.len()
            invariant
                i <= signals.events@.len(),
                events == signals.events@,
                waiting == start.waiting(),
                bell == events.take(i as int).contains(PaneSignalEvent::Bell),
                notifications@ == start.cycle.notices(events.take(i as int), attended, waiting),
                *self == (Pane {
                    cycle: start.cycle.after_all(events.take(i as int), attended, waiting),
                    ..start
                }),
            decreases signals.events@.len() - i,
        {
            let event = signals.events[i];
            proof {
                assert(events.take(i + 1).drop_last() == events.take(i as int));
                assert(events.take(i + 1).last() == event);
            }
            if event == PaneSignalEvent::Bell {
                bell = true;
                assert(events.take(i + 1)[i as int] == PaneSignalEvent::Bell);
            }
            proof {
                assert forall|j: int| 0 <= j < i implies events.take(i as int)[j]
                    == #[trigger] events.take(i + 1)[j] by {}
                if events.take(i as int).contains(PaneSignalEvent::Bell) {
                    let j = choose|j: int|
                        0 <= j < i && events.take(i as int)[j] == PaneSignalEvent::Bell;
                    assert(events.take(i + 1)[j] == PaneSignalEvent::Bell);
                }
            }
            if let Some(notification) = self.cycle.apply(event, attended, waiting) {
                notifications.push(notification);
            }
            i = i + 1;
        }
        assert(events.take(i as int) == events);
        (PaneSignalOutcome { bell }, notifications)
    }

    /// Applies a change of what the session waits for.
    pub fn apply_lifecycle(&mut self, event: LifecycleEvent) -> (notice: Option<PaneNotification>)
        ensures
            notice == lifecycle_notice(pending_view(old(self).pending_inputs@), event),
            pending_view(final(self).pending_inputs@) == pending_after(
                pending_view(old(self).pending_inputs@),
                event,
            ),
            final(self).cycle == cycle_after(
                old(self).cycle,
                pending_view(old(self).pending_inputs@),
                event,
            ),
            *final(self) == (Pane {
                cycle: final(self).cycle,
                pending_inputs: final(self).pending_inputs,
                ..*old(self)
            }),
    {
        let ghost pending = pending_view(self.pending_inputs@);
        match event {
            LifecycleEvent::InputRequested { tool_call_id, kind } => {
                if self.has_pending(&tool_call_id) {
                    return None;
                }
                proof {
                    lemma_pending_push(self.pending_inputs@, (tool_call_id, kind));
                }
                self.pending_inputs.push((tool_call_id, kind));
                self.cycle.ready_sent = true;
                Some(
                    match kind {
                        InputKind::Question => PaneNotification::Question,
                        InputKind::PlanApproval => PaneNotification::PlanApproval,
                    },
                )
            },
            LifecycleEvent::InputResolved { tool_call_id, kind } => {
                let previous_len: usize = self.pending_inputs.len();
                self.drop_pending(&tool_call_id, kind);
                proof {
                    pending.lemma_filter_len(other_request(tool_call_id@, kind));
                }
                if previous_len != self.pending_inputs.len() && self.pending_inputs.len() == 0 {
                    self.forget_cycle();
                }
                None
            },
            LifecycleEvent::Reset => {
                if self.pending_inputs.len() > 0 {
                    self.pending_inputs.clear();
                    self.forget_cycle();
                }
                assert(pending_view(self.pending_inputs@) == Seq::<(Seq<char>, InputKind)>::empty());
                None
            },
        }
    }

    fn forget_cycle(&mut self)
        ensures
            *final(self) == (Pane {
                cycle: WorkCycle {
                    needs_attention: false,
                    ready_sent: false,
                    error_sent: false,
                    ..old(self).cycle
                },
                ..*old(self)
            }),
    {
        self.cycle.needs_attention = false;
        self.cycle.ready_sent = false;
        self.cycle.error_sent = false;
    }

    fn has_pending(&self, tool_call_id: &String) -> (r: bool)
        ensures
            r == is_pending(pending_view(self.pending_inputs@), tool_call_id@),
    {
        let ghost pending = pending_view(self.pending_inputs@);
        let mut i: usize = 0;
        while i < self.pending_inputs.len()
            invariant
                i <= self.pending_inputs@.len(),
                pending == pending_view(self.pending_inputs@),
                forall|j: int| 0 <= j < i ==> (#[trigger] pending[j]).0 != tool_call_id@,
            decreases self.pending_inputs@.len() - i,
        {
            assert(pending[i as int].0 == self.pending_inputs@[i as int].0@);
            if self.pending_inputs[i].0 == *tool_call_id {
                return true;
            }
            i = i + 1;
        }
        false
    }

    fn drop_pending(&mut self, tool_call_id: &String, kind: InputKind)
        ensures
            pending_view(final(self).pending_inputs@) == still_pending(
                pending_view(old(self).pending_inputs@),
                tool_call_id@,
                kind,
            ),
            *final(self) == (Pane { pending_inputs: final(self).pending_inputs, ..*old(self) }),
    {
        let ghost pending = pending_view(self.pending_inputs@);
        let ghost keep = other_request(tool_call_id@, kind);
        let mut kept: Vec<(String, InputKind)> = Vec::new();
        let mut i: usize = 0;
        assert(pending.take(0).filter(keep) == Seq::<(Seq<char>, InputKind)>::empty()) by {
            assert(pending.take(0) == Seq::<(Seq<char>, InputKind)>::empty());
            reveal(Seq::filter);
        }
        while i < self.pending_inputs.len()
            invariant
                i <= self.pending_inputs@.len(),
                self == old(self),
                pending == pending_view(self.pending_inputs@),
                keep == other_request(tool_call_id@, kind),
                pending_view(kept@) == pending.take(i as int).filter(keep),
            decreases self.pending_inputs@.len() - i,
        {
            let entry = &self.pending_inputs[i];
            proof {
                reveal(Seq::filter);
                assert(pending.take(i + 1).drop_last() == pending.take(i as int));
                assert(pending.take(i + 1).last() == (entry.0@, entry.1));
            }
            if entry.0 != *tool_call_id || entry.1 != kind {
                proof {
                    lemma_pending_push(kept@, *entry);
                }
                kept.push((entry.0.clone(), entry.1));
            }
            i = i + 1;
        }
        assert(pending.take(i as int) == pending);
        self.pending_inputs = kept;
    }

    /// Whether the pane wants attention: it asked for it, or it waits for the user.
    pub fn needs_attention(&self) -> (r: bool)
        ensures
            r == self.marked(),
    {
        self.cycle.needs_attention || self.requires_user_action()
    }

    /// Whether the pane waits for the user.
    pub fn requires_user_action(&self) -> (r: bool)
        ensures
            r == self.waiting(),
    {
        self.pending_inputs.len() > 0
    }

    /// The user has looked at the pane. A live question stays marked.
    pub fn acknowledge_attention(&mut self)
        ensures
            *final(self) == (Pane {
                cycle: WorkCycle { needs_attention: false, ..old(self).cycle },
                ..*old(self)
            }),
    {
        self.cycle.needs_attention = false;
    }

    /// Where the child's cursor is shown: nowhere while it hides it.
    pub fn cursor(&self, hidden: bool, position: (u16, u16)) -> (shown: Option<(u16, u16)>)
        ensures
            shown == (if hidden {
                None
            } else {
                Some(position)
            }),
    {
        if hidden {
            None
        } else {
            Some(position)
        }
    }

    /// The title as it is shown: marked with a question mark where the pane wants attention.
    pub fn display_title(&self) -> (title: String)
        ensures
            title@ == (if self.marked() {
                "? "@ + self.title@
            } else {
                self.title@
            }),
    {
        if self.needs_attention() {
            let mut title = "? ".to_owned();
            title.append(self.title.as_str());
            title
        } else {
            self.title.clone()
        }
    }

    /// The bytes to write to the child for a key. A pane whose child is gone takes none.
    pub fn send_key(&self, key: &KeyEvent, modes: ScreenModes) -> (bytes: Option<Vec<u8>>)
        ensures
            match bytes {
                Some(b) => self.status == PaneStatus::Running && keys::key_bytes(
                    *key,
                    modes.application_cursor,
                ) == Some(b@),
                None => self.status != PaneStatus::Running || keys::key_bytes(
                    *key,
                    modes.application_cursor,
                ) is None,
            },
    {
        if !self.is_running() {
            return None;
        }
        keys::encode(key, modes.application_cursor)
    }

    /// The bytes to write to the child for a paste. A pane whose child is gone takes none.
    pub fn send_paste(&self, text: &str, modes: ScreenModes) -> (bytes: Option<Vec<u8>>)
        ensures
            match bytes {
                Some(b) => self.status == PaneStatus::Running && b@ == keys::paste_bytes(
                    text@,
                    modes.bracketed_paste,
                ),
                None => self.status != PaneStatus::Running,
            },
    {
        if !self.is_running() {
            return None;
        }
        Some(keys::encode_paste(text, modes.bracketed_paste))
    }

    /// The bytes that paste a snippet, without allowing a line break to become an Enter keypress.
    pub fn send_prompt_snippet(&self, text: &str, modes: ScreenModes) -> (r: Result<
        Vec<u8>,
        SnippetRefusal,
    >)
        ensures
            match r {
                Ok(bytes) => {
                    &&& snippet_refusal(
                        self.status == PaneStatus::Running,
                        text@,
                        modes.bracketed_paste,
                    ) is None
                    &&& bytes@ == keys::paste_bytes(text@, modes.bracketed_paste)
                },
                Err(refusal) => snippet_refusal(
                    self.status == PaneStatus::Running,
                    text@,
                    modes.bracketed_paste,
                ) == Some(refusal),
            },
    {
        if !self.is_running() {
            return Err(SnippetRefusal::NotRunning);
        }
        if text.is_empty() {
            return Err(SnippetRefusal::Empty);
        }
        let characters = chars_of(text);
        let mut controls = false;
        let mut breaks = false;
        let mut i: usize = 0;
        while i < characters.len()
            invariant
                i <= characters@.len(),
                characters@ == text@,
                controls == has_terminal_control(text@.take(i as int)),
                breaks == has_line_break(text@.take(i as int)),
            decreases characters@.len() - i,
        {
            let c = characters[i];
            let ghost prefix = text@.take(i as int);
            let ghost longer = text@.take(i + 1);
            proof {
                assert(longer == prefix.push(c));
                if has_terminal_control(prefix) {
                    let j = choose|j: int|
                        0 <= j < prefix.len() && control(#[trigger] prefix[j]) && prefix[j] != '\r'
                            && prefix[j] != '\n' && prefix[j] != '\t';
                    assert(longer[j] == prefix[j]);
                }
                if has_terminal_control(longer) {
                    let j = choose|j: int|
                        0 <= j < longer.len() && control(#[trigger] longer[j]) && longer[j] != '\r'
                            && longer[j] != '\n' && longer[j] != '\t';
                    if j < i {
                        assert(prefix[j] == longer[j]);
                    }
                }
                assert(longer[i as int] == c);
                assert(longer.contains('\r') == (prefix.contains('\r') || c == '\r'));
                assert(longer.contains('\n') == (prefix.contains('\n') || c == '\n'));
            }
            if c == '\r' || c == '\n' {
                breaks = true;
            } else if is_control(c) && c != '\t' {
                controls = true;
            }
            i = i + 1;
        }
        assert(text@.take(i as int) == text@);
        if controls {
            return Err(SnippetRefusal::ControlCharacters);
        }
        if breaks && !modes.bracketed_paste {
            return Err(SnippetRefusal::MultilineNotReady);
        }
        Ok(keys::encode_paste(text, modes.bracketed_paste))
    }

    /// Routes a mouse event to the child or to the pane's history.
    pub fn handle_mouse(&mut self, event: MouseEvent, modes: ScreenModes) -> (action: MouseAction)
        ensures
            old(self).status != PaneStatus::Running ==> *final(self) == *old(self) && action
                == MouseAction::Nothing,
            old(self).status == PaneStatus::Running && modes.mouse_mode == MouseProtocolMode::Off
                ==> {
                &&& *final(self) == *old(self)
                &&& action == (if old(self).viewport.inside(event.column, event.row) && (
                event.kind is ScrollUp || event.kind is ScrollDown) {
                    MouseAction::Scroll { up: event.kind is ScrollUp }
                } else {
                    MouseAction::Nothing
                })
            },
            old(self).status == PaneStatus::Running && modes.mouse_mode != MouseProtocolMode::Off
                ==> {
                &&& *final(self) == (Pane {
                    mouse_captured: captured_after(
                        old(self).viewport,
                        old(self).mouse_captured,
                        event,
                    ),
                    ..*old(self)
                })
                &&& match mouse_report(
                    old(self).viewport,
                    old(self).mouse_captured,
                    event,
                    modes.mouse_mode,
                    modes.mouse_encoding,
                ) {
                    Some(bytes) => action matches MouseAction::Write(b) && b@ == bytes,
                    None => action == MouseAction::Nothing,
                }
            },
    {
        if !self.is_running() {
            return MouseAction::Nothing;
        }
        let mut captured: bool = self.mouse_captured;
        let action = route_mouse(
            self.viewport,
            &mut captured,
            event,
            modes.mouse_mode,
            modes.mouse_encoding,
        );
        self.mouse_captured = captured;
        action
    }

    /// Moves the pane to the corner of the screen at a new size, where its child took that size.
    pub fn resize(&mut self, rows: u16, cols: u16, resized: Result<(), String>) -> (result: Result<
        (),
        String,
    >)
        ensures
            result == resized,
            *final(self) == old(self).moved(pane_viewport(0, 0, rows, cols), resized is Ok),
    {
        self.resize_at(0, 0, rows, cols, resized)
    }

    /// Moves the pane to a new place and size, where its child took that size: `resized` is how the
    /// child took it. A pane whose child did not stays where it is.
    pub fn resize_at(
        &mut self,
        x: u16,
        y: u16,
        rows: u16,
        cols: u16,
        resized: Result<(), String>,
    ) -> (result: Result<(), String>)
        ensures
            result == resized,
            *final(self) == old(self).moved(pane_viewport(x, y, rows, cols), resized is Ok),
    {
        if resized.is_ok() {
            let size = pty_size(rows, cols);
            self.viewport = Viewport { x, y, rows: size.rows, cols: size.cols };
        }
        resized
    }

    /// The pane at another place, where its child took the size.
    pub open spec fn moved(self, viewport: Viewport, taken: bool) -> Pane {
        if taken {
            Pane { viewport, ..self }
        } else {
            self
        }
    }

    /// Picks up an exit that happened without an event: the code is that of a child that has ended.
    pub fn poll_exit(&mut self, ended: Option<u32>)
        ensures
            match (old(self).status, ended) {
                (PaneStatus::Running, Some(code)) => {
                    &&& final(self).pending_inputs@.len() == 0
                    &&& *final(self) == (Pane {
                        status: PaneStatus::Exited(Some(code)),
                        cycle: WorkCycle {
                            working: false,
                            progress: ProgressState::Clear,
                            ..old(self).cycle
                        },
                        pending_inputs: final(self).pending_inputs,
                        ..*old(self)
                    })
                },
                _ => *final(self) == *old(self),
            },
    {
        if self.is_running() {
            if let Some(code) = ended {
                self.mark_exited(Some(code));
            }
        }
    }
}

/// A position that is inside the viewport is the same whether it is clamped or not, and every
/// clamped position lies inside.
pub proof fn law_clamping_keeps_positions_inside(viewport: Viewport, column: u16, row: u16)
    requires
        viewport.rows > 0,
        viewport.cols > 0,
    ensures
        viewport.inside(column, row) ==> {
            &&& Viewport::clamp_one(viewport.x, viewport.cols, column) == column - viewport.x + 1
            &&& Viewport::clamp_one(viewport.y, viewport.rows, row) == row - viewport.y + 1
        },
        1 <= Viewport::clamp_one(viewport.x, viewport.cols, column) <= viewport.cols,
        1 <= Viewport::clamp_one(viewport.y, viewport.rows, row) <= viewport.rows,
{
}

/// A pane that waits for the user is always marked and never shows progress, whatever it reports
/// and however often the user looks at it.
pub proof fn law_waiting_pane_is_marked_and_shows_no_progress(
    pane: Pane,
    events: Seq<PaneSignalEvent>,
    attended: bool,
)
    requires
        pane.waiting(),
    ensures
        ({
            let reported = Pane {
                cycle: pane.cycle.after_all(events, attended, true),
                ..pane
            };
            let seen = Pane {
                cycle: WorkCycle { needs_attention: false, ..reported.cycle },
                ..reported
            };
            &&& reported.marked() && reported.shown_progress() == ProgressState::Clear
            &&& seen.marked() && seen.shown_progress() == ProgressState::Clear
        }),
{
}

/// Within one work cycle a pane is announced as ready at most once, and as failed at most once; a
/// failure is not followed by a ready notice in its cycle.
pub proof fn law_each_notice_once_per_cycle(
    cycle: WorkCycle,
    events: Seq<PaneSignalEvent>,
    attended: bool,
    waiting: bool,
)
    requires
        !cycle.begins_within(events, attended, waiting),
    ensures
        ({
            let notices = cycle.notices(events, attended, waiting);
            &&& cycle.ready_sent || cycle.error_sent ==> !notices.contains(PaneNotification::Ready)
            &&& cycle.error_sent ==> !notices.contains(PaneNotification::Error)
            &&& of_one_cycle(notices)
        }),
    decreases events.len(),
{
    lemma_notice_flags(cycle, events, attended, waiting);
    if events.len() > 0 {
        law_each_notice_once_per_cycle(cycle, events.drop_last(), attended, waiting);
        let before = cycle.notices(events.drop_last(), attended, waiting);
        let state = cycle.after_all(events.drop_last(), attended, waiting);
        lemma_notice_flags(cycle, events.drop_last(), attended, waiting);
        match state.notice(events.last(), waiting) {
            Some(n) => {
                assert(cycle.notices(events, attended, waiting) == before.push(n));
                if before.contains(PaneNotification::Ready) {
                    assert(state.ready_sent);
                }
                if before.contains(PaneNotification::Error) {
                    assert(state.error_sent);
                }
            },
            None => {},
        }
    }
}

/// However its output is cut into chunks, a pane is announced as ready at most once and as failed at
/// most once from the signal that begins a work cycle up to the one that begins the next; a failure
/// is not followed by a ready notice in its cycle.
pub proof fn law_each_notice_once_per_cycle_over_chunks(
    cycle: WorkCycle,
    first: PaneSignalEvent,
    attended: bool,
    waiting: bool,
    runs: Seq<SignalRun>,
)
    requires
        cycle.begins(first),
        !cycle.after(first, attended, waiting).begins_within_runs(runs),
    ensures
        ({
            let rest = cycle.after(first, attended, waiting).notices_of_runs(runs);
            match cycle.notice(first, waiting) {
                Some(notice) => of_one_cycle(seq![notice] + rest),
                None => of_one_cycle(rest),
            }
        }),
{
    let started = cycle.after(first, attended, waiting);
    let rest = started.notices_of_runs(runs);
    lemma_notices_over_runs(started, runs);
    match cycle.notice(first, waiting) {
        Some(notice) => {
            let all = seq![notice] + rest;
            assert forall|i: int, j: int|
                #![trigger all[i], all[j]]
                0 <= i < j < all.len() implies (all[j] != PaneNotification::Ready || (all[i]
                != PaneNotification::Ready && all[i] != PaneNotification::Error)) && (all[j]
                != PaneNotification::Error || all[i] != PaneNotification::Error) by {
                assert(all[j] == rest[j - 1]);
                assert(rest.contains(all[j]));
                if i > 0 {
                    assert(all[i] == rest[i - 1]);
                }
            }
        },
        None => {},
    }
}

/// While a pane waits for the user it is not announced as ready, whatever it reports, and one that
/// wants attention goes on wanting it.
pub proof fn law_a_waiting_pane_is_not_announced_as_ready(cycle: WorkCycle, runs: Seq<SignalRun>)
    requires
        forall|i: int| 0 <= i < runs.len() ==> (#[trigger] runs[i]).waiting,
    ensures
        !cycle.notices_of_runs(runs).contains(PaneNotification::Ready),
        cycle.needs_attention ==> cycle.after_runs(runs).needs_attention,
    decreases runs.len(),
{
    if runs.len() > 0 {
        let run = runs.last();
        let state = cycle.after_runs(runs.drop_last());
        assert forall|i: int| 0 <= i < runs.drop_last().len() implies (#[trigger] runs.drop_last()[i]).waiting by {
            assert(runs.drop_last()[i] == runs[i]);
        }
        law_a_waiting_pane_is_not_announced_as_ready(cycle, runs.drop_last());
        lemma_waiting_run(state, run.events, run.attended);
        let before = cycle.notices_of_runs(runs.drop_last());
        let more = state.notices(run.events, run.attended, run.waiting);
        assert forall|k: int| 0 <= k < (before + more).len() implies (before + more)[k]
            != PaneNotification::Ready by {
            if k < before.len() {
                assert(before.contains((before + more)[k]));
            } else {
                assert(more[k - before.len()] == (before + more)[k]);
                assert(more.contains((before + more)[k]));
            }
        }
    }
}

proof fn lemma_waiting_run(cycle: WorkCycle, events: Seq<PaneSignalEvent>, attended: bool)
    ensures
        !cycle.notices(events, attended, true).contains(PaneNotification::Ready),
        cycle.needs_attention ==> cycle.after_all(events, attended, true).needs_attention,
    decreases events.len(),
{
    if events.len() > 0 {
        lemma_waiting_run(cycle, events.drop_last(), attended);
        let before = cycle.notices(events.drop_last(), attended, true);
        let after = cycle.notices(events, attended, true);
        assert forall|k: int| 0 <= k < after.len() implies after[k] != PaneNotification::Ready by {
            if k < before.len() {
                assert(before.contains(after[k]));
            }
        }
    }
}

/// Over several runs without a new cycle the notices are those of one cycle, and none comes that was
/// sent before.
proof fn lemma_notices_over_runs(cycle: WorkCycle, runs: Seq<SignalRun>)
    requires
        !cycle.begins_within_runs(runs),
    ensures
        ({
            let notices = cycle.notices_of_runs(runs);
            let state = cycle.after_runs(runs);
            &&& of_one_cycle(notices)
            &&& cycle.ready_sent || cycle.error_sent ==> !notices.contains(PaneNotification::Ready)
            &&& cycle.error_sent ==> !notices.contains(PaneNotification::Error)
            &&& notices.contains(PaneNotification::Ready) || cycle.ready_sent ==> state.ready_sent
            &&& notices.contains(PaneNotification::Error) || cycle.error_sent ==> state.error_sent
        }),
    decreases runs.len(),
{
    if runs.len() > 0 {
        let run = runs.last();
        let state = cycle.after_runs(runs.drop_last());
        let before = cycle.notices_of_runs(runs.drop_last());
        let more = state.notices(run.events, run.attended, run.waiting);
        let all = before + more;
        lemma_notices_over_runs(cycle, runs.drop_last());
        law_each_notice_once_per_cycle(state, run.events, run.attended, run.waiting);
        lemma_notice_flags(state, run.events, run.attended, run.waiting);
        assert forall|k: PaneNotification| #[trigger] all.contains(k) implies before.contains(k)
            || more.contains(k) by {
            let i = choose|i: int| 0 <= i < all.len() && all[i] == k;
            if i < before.len() {
                assert(before[i] == k);
            } else {
                assert(more[i - before.len()] == k);
            }
        }
        assert forall|i: int, j: int|
            #![trigger all[i], all[j]]
            0 <= i < j < all.len() implies (all[j] != PaneNotification::Ready || (all[i]
            != PaneNotification::Ready && all[i] != PaneNotification::Error)) && (all[j]
            != PaneNotification::Error || all[i] != PaneNotification::Error) by {
            if j < before.len() {
                assert(all[i] == before[i] && all[j] == before[j]);
            } else if i >= before.len() {
                assert(all[i] == more[i - before.len()] && all[j] == more[j - before.len()]);
            } else {
                assert(before[i] == all[i] && before.contains(all[i]));
                assert(more[j - before.len()] == all[j] && more.contains(all[j]));
            }
        }
    }
}

/// Inside one cycle a sent notice leaves its flag set, and flags stay set.
proof fn lemma_notice_flags(
    cycle: WorkCycle,
    events: Seq<PaneSignalEvent>,
    attended: bool,
    waiting: bool,
)
    requires
        !cycle.begins_within(events, attended, waiting),
    ensures
        ({
            let notices = cycle.notices(events, attended, waiting);
            let state = cycle.after_all(events, attended, waiting);
            &&& notices.contains(PaneNotification::Ready) || cycle.ready_sent ==> state.ready_sent
            &&& notices.contains(PaneNotification::Error) || cycle.error_sent ==> state.error_sent
            &&& !notices.contains(PaneNotification::Question)
            &&& !notices.contains(PaneNotification::PlanApproval)
        }),
    decreases events.len(),
{
    if events.len() > 0 {
        lemma_notice_flags(cycle, events.drop_last(), attended, waiting);
        let before = cycle.notices(events.drop_last(), attended, waiting);
        let state = cycle.after_all(events.drop_last(), attended, waiting);
        match state.notice(events.last(), waiting) {
            Some(n) => {
                let after = before.push(n);
                assert(cycle.notices(events, attended, waiting) == after);
                assert forall|k: PaneNotification| after.contains(k) implies before.contains(k) || k
                    == n by {
                    let i = choose|i: int| 0 <= i < after.len() && after[i] == k;
                    if i < before.len() {
                        assert(before[i] == k);
                    }
                }
            },
            None => {},
        }
    }
}

/// Resolving an input request that was just made leaves what was pending before.
pub proof fn law_resolving_a_new_request_undoes_it(
    pending: Seq<(Seq<char>, InputKind)>,
    tool_call_id: String,
    kind: InputKind,
)
    requires
        !is_pending(pending, tool_call_id@),
    ensures
        pending_after(
            pending_after(pending, LifecycleEvent::InputRequested { tool_call_id, kind }),
            LifecycleEvent::InputResolved { tool_call_id, kind },
        ) == pending,
{
    let keep = other_request(tool_call_id@, kind);
    let entry = (tool_call_id@, kind);
    reveal(Seq::filter);
    assert(pending.push(entry).drop_last() == pending);
    assert(pending.push(entry).filter(keep) == pending.filter(keep));
    lemma_filter_keeps_all(pending, keep);
}

proof fn lemma_filter_keeps_all(
    pending: Seq<(Seq<char>, InputKind)>,
    keep: spec_fn((Seq<char>, InputKind)) -> bool,
)
    requires
        forall|i: int| 0 <= i < pending.len() ==> keep(#[trigger] pending[i]),
    ensures
        pending.filter(keep) == pending,
    decreases pending.len(),
{
    reveal(Seq::filter);
    if pending.len() > 0 {
        lemma_filter_keeps_all(pending.drop_last(), keep);
        assert(pending.drop_last().push(pending.last()) == pending);
    }
}

/// What a pane announces: that it is ready when work ends or the bell rings, once, unless it waits or
/// has told of an error; and every error that it has not told of in this cycle. Nothing else.
pub proof fn law_ends_and_errors_are_announced(cycle: WorkCycle, event: PaneSignalEvent, waiting: bool)
    ensures
        cycle.notice(event, waiting) == Some(PaneNotification::Ready) <==> !waiting && !cycle.ready_sent
            && !cycle.error_sent && (event == PaneSignalEvent::Bell || (cycle.working && event
            == PaneSignalEvent::Progress(ProgressState::Clear))),
        cycle.notice(event, waiting) == Some(PaneNotification::Error) <==> event
            == PaneSignalEvent::Progress(ProgressState::Error) && !(cycle.working && cycle.error_sent),
        cycle.notice(event, waiting) != Some(PaneNotification::Question),
        cycle.notice(event, waiting) != Some(PaneNotification::PlanApproval),
{
}

/// What a pane does is what it last reported. It asks for attention when work ends or the bell rings
/// while nobody looks, and no longer when new work begins, unless it waits.
pub proof fn law_reports_change_the_work(
    cycle: WorkCycle,
    event: PaneSignalEvent,
    attended: bool,
    waiting: bool,
)
    ensures
        ({
            let now = cycle.after(event, attended, waiting);
            &&& event matches PaneSignalEvent::Progress(p) ==> now.progress == p && (now.working <==> p
                != ProgressState::Clear)
            &&& event == PaneSignalEvent::Bell ==> now.progress == cycle.progress && now.working
                == cycle.working
            &&& !cycle.needs_attention && now.needs_attention ==> !attended && !waiting
            &&& !attended && !waiting && (event == PaneSignalEvent::Bell || (cycle.working && event
                == PaneSignalEvent::Progress(ProgressState::Clear))) ==> now.needs_attention
            &&& !waiting ==> (event matches PaneSignalEvent::Progress(p) ==> p != ProgressState::Clear
                ==> !now.needs_attention)
        }),
{
}

proof fn lemma_run_ends(text: Seq<char>, from: int, end: int)
    requires
        0 <= from <= end <= text.len(),
        forall|i: int| from <= i < end ==> ascii_digit(#[trigger] text[i]),
        end < text.len() ==> !ascii_digit(text[end]),
    ensures
        digits_end(text, from) == end,
    decreases end - from,
{
    if from < end {
        assert(ascii_digit(text[from]));
        lemma_run_ends(text, from + 1, end);
    }
}

proof fn lemma_run_begins(text: Seq<char>, at: int, start: int)
    requires
        0 <= start <= at <= text.len(),
        forall|i: int| start <= i < at ==> ascii_digit(#[trigger] text[i]),
        start > 0 ==> !ascii_digit(text[start - 1]),
    ensures
        digits_start(text, at) == start,
    decreases at - start,
{
    if start < at {
        assert(ascii_digit(text[at - 1]));
        lemma_run_begins(text, at - 1, start);
    }
}

/// A number behind a hash is read as the item that it names, whatever stands around it, and a click on
/// any of its characters finds it.
pub proof fn law_references_read_back(front: Seq<char>, number: u64, back: Seq<char>, at: int)
    requires
        number > 0,
        front.len() > 0 ==> !ascii_alphanumeric(front.last()),
        back.len() > 0 ==> !ascii_digit(back[0]),
        front.len() <= at <= front.len() + crate::strings::decimal(number as nat).len(),
    ensures
        ({
            let text = front + seq!['#'] + crate::strings::decimal(number as nat) + back;
            &&& reference_from(text, front.len() as int) == Some(number)
            &&& reference_under(text, at) == Some(number)
        }),
{
    let digits = crate::strings::decimal(number as nat);
    let text = front + seq!['#'] + digits + back;
    let hash = front.len() as int;
    let end = hash + 1 + digits.len();
    crate::strings::lemma_decimal_digits(number as nat);
    crate::strings::law_parse_reads_decimal(number as nat, u64::MAX as nat);
    assert forall|i: int| hash < i < end implies ascii_digit(#[trigger] text[i]) by {
        assert(text[i] == digits[i - hash - 1]);
    }
    if end < text.len() {
        assert(text[end] == back[0]);
    }
    lemma_run_ends(text, hash + 1, end);
    assert(text.subrange(hash + 1, end) =~= digits);
    assert(text[hash] == '#');
    if hash > 0 {
        assert(text[hash - 1] == front.last());
    }
    if at > hash {
        assert(ascii_digit(text[at]));
        lemma_run_begins(text, at, hash + 1);
    }
}

/// A request that was made waits for its answer; an answer takes that request away and no other; and a
/// request that waits already is not announced again.
pub proof fn law_requests_wait_for_their_answer(
    pending: Seq<(Seq<char>, InputKind)>,
    tool_call_id: String,
    kind: InputKind,
    other: (Seq<char>, InputKind),
)
    ensures
        ({
            let asked = LifecycleEvent::InputRequested { tool_call_id, kind };
            let answered = LifecycleEvent::InputResolved { tool_call_id, kind };
            &&& is_pending(pending_after(pending, asked), tool_call_id@)
            &&& lifecycle_notice(pending_after(pending, asked), asked) is None
            &&& !pending_after(pending, answered).contains((tool_call_id@, kind))
            &&& other != (tool_call_id@, kind) ==> (pending_after(pending, answered).contains(other)
                <==> pending.contains(other))
            &&& pending_after(pending, LifecycleEvent::Reset).len() == 0
            &&& !is_pending(pending, tool_call_id@) ==> lifecycle_notice(pending, asked) == Some(
                if kind == InputKind::Question {
                    PaneNotification::Question
                } else {
                    PaneNotification::PlanApproval
                },
            )
        }),
{
    broadcast use vstd::seq_lib::group_filter_ensures;

    let asked = LifecycleEvent::InputRequested { tool_call_id, kind };
    let after = pending_after(pending, asked);
    if !is_pending(pending, tool_call_id@) {
        assert(after[after.len() - 1] == (tool_call_id@, kind));
    }
    let keeps = other_request(tool_call_id@, kind);
    let left = still_pending(pending, tool_call_id@, kind);
    if left.contains((tool_call_id@, kind)) {
        let i = choose|i: int| 0 <= i < left.len() && left[i] == (tool_call_id@, kind);
        assert(keeps(left[i]));
    }
    if other != (tool_call_id@, kind) && pending.contains(other) {
        assert(keeps(other));
        let i = choose|i: int| 0 <= i < pending.len() && pending[i] == other;
        assert(left.contains(pending[i]));
    }
    if left.contains(other) {
        pending.lemma_filter_contains_rev(keeps, other);
    }
}

/// A snippet goes into a pane exactly where the pane runs, where there is something to send, where it
/// holds no control characters but breaks and tabs, and where it is one line or may have more.
pub proof fn law_harmless_snippets_are_pasted(running: bool, text: Seq<char>, bracketed: bool)
    ensures
        snippet_refusal(running, text, bracketed) is None <==> {
            &&& running
            &&& text.len() > 0
            &&& forall|i: int|
                0 <= i < text.len() ==> (control(#[trigger] text[i]) ==> text[i] == '\r' || text[i]
                    == '\n' || text[i] == '\t')
            &&& bracketed || forall|i: int|
                0 <= i < text.len() ==> #[trigger] text[i] != '\r' && text[i] != '\n'
        },
{
    if text.contains('\r') {
        let i = choose|i: int| 0 <= i < text.len() && text[i] == '\r';
        assert(text[i] == '\r');
    }
    if text.contains('\n') {
        let i = choose|i: int| 0 <= i < text.len() && text[i] == '\n';
        assert(text[i] == '\n');
    }
}

/// The mouse is held by a pane from a press inside it to the next release, and its place is counted
/// from one inside the pane.
pub proof fn law_the_mouse_is_held_till_released(viewport: Viewport, captured: bool, event: MouseEvent)
    ensures
        event.kind is Up ==> !captured_after(viewport, captured, event),
        event.kind is Down && viewport.inside(event.column, event.row) ==> captured_after(
            viewport,
            captured,
            event,
        ),
        captured_after(viewport, captured, event) && !captured ==> event.kind is Down
            && viewport.inside(event.column, event.row),
        captured && !captured_after(viewport, captured, event) ==> event.kind is Up,
        viewport.inside(event.column, event.row) ==> (report_position(viewport, captured, event)
            matches Some((column, row)) && viewport.x + column == event.column + 1 && viewport.y + row
            == event.row + 1),
        !viewport.inside(event.column, event.row) ==> (report_position(viewport, captured, event)
            is Some <==> captured && (event.kind is Drag || event.kind is Up)),
{
}

} // verus!
