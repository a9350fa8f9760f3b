//! Progress reports to the outer terminal: the `OSC 9 ; 4 ; state ; value` sequence.

use vstd::prelude::*;

verus! {

/// The state that a progress report announces.
#[derive(Clone, Copy, Debug, PartialEq, Eq, Structural)]
pub enum ProgressState {
    Clear,
    Normal,
    Error,
    Indeterminate,
    Paused,
}

impl ProgressState {
    /// The digit that stands for the state in a report.
    pub open spec fn code(self) -> u8 {
        match self {
            ProgressState::Clear => 0x30,
            ProgressState::Normal => 0x31,
            ProgressState::Error => 0x32,
            ProgressState::Indeterminate => 0x33,
            ProgressState::Paused => 0x34,
        }
    }

    /// The state that a digit stands for.
    pub open spec fn of_code(code: u8) -> Option<ProgressState> {
        if code == 0x30 {
            Some(ProgressState::Clear)
        } else if code == 0x31 {
            Some(ProgressState::Normal)
        } else if code == 0x32 {
            Some(ProgressState::Error)
        } else if code == 0x33 {
            Some(ProgressState::Indeterminate)
        } else if code == 0x34 {
            Some(ProgressState::Paused)
        } else {
            None
        }
    }

    /// Whether the report means that work is going on: every state but `Clear`.
    pub fn is_working(self) -> (r: bool)
        ensures
            r == (self != ProgressState::Clear),
    {
        self != ProgressState::Clear
    }

    fn digit(self) -> (code: u8)
        ensures
            code == self.code(),
    {
        match self {
            ProgressState::Clear => 0x30,
            ProgressState::Normal => 0x31,
            ProgressState::Error => 0x32,
            ProgressState::Indeterminate => 0x33,
            ProgressState::Paused => 0x34,
        }
    }

    fn from_digit(code: u8) -> (state: Option<ProgressState>)
        ensures
            state == ProgressState::of_code(code),
    {
        match code {
            0x30 => Some(ProgressState::Clear),
            0x31 => Some(ProgressState::Normal),
            0x32 => Some(ProgressState::Error),
            0x33 => Some(ProgressState::Indeterminate),
            0x34 => Some(ProgressState::Paused),
            _ => None,
        }
    }
}

/// The bytes every progress report starts with, `ESC ] 9 ; 4 ;`.
pub open spec fn report_start() -> Seq<u8> {
    seq![0x1bu8, 0x5d, 0x39, 0x3b, 0x34, 0x3b]
}

/// The state that the parameters of an operating system command report, where they are a progress
/// report: `9`, `4`, and one state digit.
pub open spec fn reported_state(params: Seq<Vec<u8>>) -> Option<ProgressState> {
    if params.len() >= 3 && params[0]@ == seq![0x39u8] && params[1]@ == seq![0x34u8]
        && params[2]@.len() == 1 {
        ProgressState::of_code(params[2]@[0])
    } else {
        None
    }
}

/// The parameters from position `from` on, each behind a semicolon.
pub open spec fn joined(params: Seq<Vec<u8>>, from: int) -> Seq<u8>
    decreases params.len() - from,
{
    if from >= params.len() {
        Seq::empty()
    } else {
        seq![0x3bu8] + params[from]@ + joined(params, from + 1)
    }
}

/// The progress report that announces a state.
pub open spec fn report(state: ProgressState) -> Seq<u8> {
    seq![0x1bu8, 0x5d, 0x39, 0x3b, 0x34, 0x3b, state.code(), 0x3b, 0x30, 0x1b, 0x5c]
}

/// The state that a written report announces: a report start, a state digit, and then a value or
/// the end of the sequence.
pub open spec fn written_state(sequence: Seq<u8>) -> Option<ProgressState> {
    if sequence.len() >= 8 && sequence.take(6) == report_start() && (sequence[7] == 0x3b
        || sequence[7] == 0x1b || sequence[7] == 0x07) {
        ProgressState::of_code(sequence[6])
    } else {
        None
    }
}

/// The report that clears all progress.
pub fn clear_progress() -> (bytes: Vec<u8>)
    ensures
        bytes@ == report(ProgressState::Clear),
{
    progress_sequence_for_state(ProgressState::Clear)
}

/// The report that announces a state.
pub fn progress_sequence_for_state(state: ProgressState) -> (bytes: Vec<u8>)
    ensures
        bytes@ == report(state),
{
    let bytes: Vec<u8> = vec![
        0x1b,
        0x5d,
        0x39,
        0x3b,
        0x34,
        0x3b,
        state.digit(),
        0x3b,
        0x30,
        0x1b,
        0x5c,
    ];
    assert(bytes@ == report(state));
    bytes
}

/// The progress state that an operating system command reports, if it is a progress report.
pub fn progress_state(params: &Vec<Vec<u8>>) -> (state: Option<ProgressState>)
    ensures
        state == reported_state(params@),
{
    if params.len() < 3 {
        return None;
    }
    let first = &params[0];
    let second = &params[1];
    let third = &params[2];
    if first.len() == 1 && first[0] == 0x39 && second.len() == 1 && second[0] == 0x34
        && third.len() == 1 {
        assert(params@[0]@ == seq![0x39u8]);
        assert(params@[1]@ == seq![0x34u8]);
        ProgressState::from_digit(third[0])
    } else {
        None
    }
}

/// The sequence that passes a progress report on to the outer terminal.
pub fn progress_sequence(params: &Vec<Vec<u8>>) -> (sequence: Option<Vec<u8>>)
    ensures
        match sequence {
            Some(bytes) => {
                &&& reported_state(params@) is Some
                &&& bytes@ == report_start() + params@[2]@ + joined(params@, 3) + seq![0x1bu8, 0x5c]
            },
            None => reported_state(params@) is None,
        },
{
    if progress_state(params).is_none() {
        return None;
    }
    let mut bytes: Vec<u8> = vec![0x1b, 0x5d, 0x39, 0x3b, 0x34, 0x3b];
    bytes.push(params[2][0]);
    assert(bytes@ == report_start() + params@[2]@);
    let ghost head = bytes@;
    let mut i: usize = 3;
    assert(bytes@ + joined(params@, 3) == head + joined(params@, 3));
    while i < params.len()
        invariant
            3 <= i <= params@.len(),
            bytes@ + joined(params@, i as int) == head + joined(params@, 3),
        decreases params@.len() - i,
    {
        let ghost before = bytes@;
        bytes.push(0x3b);
        let mut part = params[i].clone();
        assert(part@ == params@[i as int]@);
        bytes.append(&mut part);
        assert(bytes@ + joined(params@, i + 1) == before + joined(params@, i as int));
        i = i + 1;
    }
    assert(bytes@ == head + joined(params@, 3)) by {
        assert(joined(params@, i as int) == Seq::<u8>::empty());
        assert(bytes@ + Seq::<u8>::empty() == bytes@);
    }
    bytes.push(0x1b);
    bytes.push(0x5c);
    assert(bytes@ == report_start() + params@[2]@ + joined(params@, 3) + seq![0x1bu8, 0x5c]);
    Some(bytes)
}

/// The progress state that a sequence for the outer terminal announces, if it is a progress report.
pub fn progress_state_from_sequence(sequence: &Vec<u8>) -> (state: Option<ProgressState>)
    ensures
        state == written_state(sequence@),
{
    if sequence.len() < 8 {
        return None;
    }
    let starts = sequence[0] == 0x1b && sequence[1] == 0x5d && sequence[2] == 0x39 && sequence[3]
        == 0x3b && sequence[4] == 0x34 && sequence[5] == 0x3b;
    proof {
        if starts {
            assert(sequence@.take(6) == report_start());
        } else {
            assert(sequence@.take(6) == report_start() ==> {
                &&& sequence@[0] == report_start()[0]
                &&& sequence@[1] == report_start()[1]
                &&& sequence@[2] == report_start()[2]
                &&& sequence@[3] == report_start()[3]
                &&& sequence@[4] == report_start()[4]
                &&& sequence@[5] == report_start()[5]
            }) by {
                if sequence@.take(6) == report_start() {
                    assert forall|k: int| 0 <= k < 6 implies sequence@[k] == report_start()[k] by {
                        assert(sequence@.take(6)[k] == sequence@[k]);
                    }
                }
            }
        }
    }
    if starts && (sequence[7] == 0x3b || sequence[7] == 0x1b || sequence[7] == 0x07) {
        ProgressState::from_digit(sequence[6])
    } else {
        None
    }
}

/// A state is read back from the report that announces it.
pub proof fn law_report_is_read_back(state: ProgressState)
    ensures
        written_state(report(state)) == Some(state),
{
    assert(report(state).take(6) == report_start());
}

/// A report that is passed on announces the state that its parameters reported.
pub proof fn law_forwarded_report_keeps_its_state(params: Seq<Vec<u8>>)
    requires
        reported_state(params) is Some,
    ensures
        written_state(
            report_start() + params[2]@ + joined(params, 3) + seq![0x1bu8, 0x5c],
        ) == reported_state(params),
{
    let sequence = report_start() + params[2]@ + joined(params, 3) + seq![0x1bu8, 0x5c];
    assert(sequence.take(6) == report_start());
    assert(sequence[6] == params[2]@[0]);
    if params.len() > 3 {
        assert(joined(params, 3)[0] == 0x3b);
        assert(sequence[7] == 0x3b);
    } else {
        assert(joined(params, 3) == Seq::<u8>::empty());
        assert(sequence[7] == 0x1b);
    }
}

/// The digits by which terminals know the states.
pub proof fn law_states_have_their_digits(state: ProgressState)
    ensures
        report(state).len() == 11,
        report(state).take(6) == seq![27u8, 93, 57, 59, 52, 59],
        report(state).skip(7) == seq![59u8, 48, 27, 92],
        match state {
            ProgressState::Clear => report(state)[6] == 48,
            ProgressState::Normal => report(state)[6] == 49,
            ProgressState::Error => report(state)[6] == 50,
            ProgressState::Indeterminate => report(state)[6] == 51,
            ProgressState::Paused => report(state)[6] == 52,
        },
{
    assert(report(state).take(6) =~= seq![27u8, 93, 57, 59, 52, 59]);
    assert(report(state).skip(7) =~= seq![59u8, 48, 27, 92]);
}

} // verus!
