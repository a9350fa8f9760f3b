//! The size of a pseudo-terminal, and what ending its child came to.

use crate::session::worktree::{quote, quoted, Failure};
use crate::strings::{append_text, decimal, decimal_text};
use vstd::prelude::*;

verus! {

/// The size of a pseudo-terminal in cells.
#[derive(Clone, Copy, Debug, PartialEq, Eq, Structural)]
pub struct PtySize {
    pub rows: u16,
    pub cols: u16,
}

/// What ending a child came to: its exit code, and whether it had to be terminated.
#[derive(Clone, Copy, Debug, PartialEq, Eq, Structural)]
pub struct TerminationOutcome {
    pub code: Option<u32>,
    pub terminated: bool,
}

/// Chunks of child output, plus a final exit notification.
#[derive(Clone, Debug, PartialEq, Eq)]
pub enum PtyChunk {
    Output(Vec<u8>),
    Exited(Option<u32>),
}

/// The size a pane gets: at least one row and one column, because a zero-sized pane would make the
/// child compute a degenerate layout.
pub fn pty_size(rows: u16, cols: u16) -> (size: PtySize)
    ensures
        size.rows == (if rows == 0 { 1u16 } else { rows }),
        size.cols == (if cols == 0 { 1u16 } else { cols }),
{
    PtySize {
        rows: if rows == 0 {
            1
        } else {
            rows
        },
        cols: if cols == 0 {
            1
        } else {
            cols
        },
    }
}

/// Whether a pseudo-terminal has to be told about a size: only where it differs from its own.
pub fn needs_resize(current: PtySize, wanted: PtySize) -> (r: bool)
    ensures
        r == (current != wanted),
{
    current != wanted
}

/// How far the end of a child process has come.
#[derive(Debug)]
pub enum TerminationState {
    /// Nothing has been tried yet.
    Start,
    /// The child was told to end; `terminated` says whether it had to be.
    Waiting { terminated: bool },
    /// The child is gone.
    Done(TerminationOutcome),
    /// The child could not be ended.
    Failed(Failure),
}

/// What a look at a child showed.
pub enum ChildLook {
    Running,
    Ended(u32),
    Unknown(Failure),
}

/// What came of telling a child to end.
pub enum TerminationCall {
    NotMade,
    /// The call worked; `terminated` is false where the child had ended before.
    Made { terminated: bool },
    Refused(Failure),
}

/// The message about a child that outlived its time.
pub open spec fn outlived(pid: Option<u32>, timeout: u64) -> Seq<char> {
    let name = match pid {
        Some(pid) => decimal(pid as nat),
        None => "unknown"@,
    };
    quoted("Session process "@, name, " did not exit within "@) + decimal(timeout as nat) + " ms"@
}

/// Whether a state is the one after a look at a child that was told to end.
pub open spec fn waited(
    terminated: bool,
    look: ChildLook,
    elapsed: u64,
    timeout: u64,
    pid: Option<u32>,
    next: TerminationState,
) -> bool {
    match look {
        ChildLook::Ended(code) => next == TerminationState::Done(
            TerminationOutcome { code: Some(code), terminated },
        ),
        ChildLook::Unknown(failure) => next matches TerminationState::Failed(told) && told@ == seq![
            "Failed to check the session process after termination"@,
        ] + failure@,
        ChildLook::Running => if elapsed >= timeout {
            next matches TerminationState::Failed(told) && told@ == seq![outlived(pid, timeout)]
        } else {
            next == TerminationState::Waiting { terminated }
        },
    }
}

/// Whether a state follows another. A child that has ended before it is told to, or although it
/// could not be told to, was not terminated.
pub open spec fn termination_effect(
    state: TerminationState,
    call: TerminationCall,
    look: ChildLook,
    elapsed: u64,
    timeout: u64,
    pid: Option<u32>,
    next: TerminationState,
) -> bool {
    match state {
        TerminationState::Start => match (call, look) {
            (TerminationCall::Made { terminated }, _) => waited(
                terminated,
                look,
                elapsed,
                timeout,
                pid,
                next,
            ),
            (_, ChildLook::Ended(code)) => next == TerminationState::Done(
                TerminationOutcome { code: Some(code), terminated: false },
            ),
            (TerminationCall::NotMade, _) => next == state,
            (TerminationCall::Refused(failure), _) => next == TerminationState::Failed(failure),
        },
        TerminationState::Waiting { terminated } => waited(
            terminated,
            look,
            elapsed,
            timeout,
            pid,
            next,
        ),
        _ => next == state,
    }
}

fn wait_on(
    terminated: bool,
    look: ChildLook,
    elapsed: u64,
    timeout: u64,
    pid: Option<u32>,
) -> (next: TerminationState)
    ensures
        waited(terminated, look, elapsed, timeout, pid, next),
{
    match look {
        ChildLook::Ended(code) => TerminationState::Done(
            TerminationOutcome { code: Some(code), terminated },
        ),
        ChildLook::Unknown(failure) => TerminationState::Failed(
            failure.context("Failed to check the session process after termination".to_owned()),
        ),
        ChildLook::Running => {
            if elapsed < timeout {
                return TerminationState::Waiting { terminated };
            }
            let name = match pid {
                Some(pid) => decimal_text(pid as u64),
                None => "unknown".to_owned(),
            };
            let mut message = quote("Session process ", name.as_str(), " did not exit within ");
            append_text(&mut message, decimal_text(timeout).as_str());
            append_text(&mut message, " ms");
            TerminationState::Failed(Failure::of(message))
        },
    }
}

/// Goes on with ending a child. `call` is what came of telling it to end since the last step, and
/// `look` what it showed after that; the times are in milliseconds, from the call on.
pub fn terminate_and_wait(
    state: TerminationState,
    call: TerminationCall,
    look: ChildLook,
    elapsed: u64,
    timeout: u64,
    pid: Option<u32>,
) -> (next: TerminationState)
    ensures
        termination_effect(state, call, look, elapsed, timeout, pid, next),
{
    match state {
        TerminationState::Start => {
            if let TerminationCall::Made { terminated } = call {
                return wait_on(terminated, look, elapsed, timeout, pid);
            }
            if let ChildLook::Ended(code) = look {
                return TerminationState::Done(
                    TerminationOutcome { code: Some(code), terminated: false },
                );
            }
            match call {
                TerminationCall::Refused(failure) => TerminationState::Failed(failure),
                _ => TerminationState::Start,
            }
        },
        TerminationState::Waiting { terminated } => wait_on(
            terminated,
            look,
            elapsed,
            timeout,
            pid,
        ),
        ended => ended,
    }
}

/// A process that was asked to end is waited for as long as was allowed, and is done with exactly where
/// it was seen to have ended, with the code that it left.
pub proof fn law_ended_processes_are_done_with(
    terminated: bool,
    call: TerminationCall,
    look: ChildLook,
    elapsed: u64,
    timeout: u64,
    pid: Option<u32>,
    next: TerminationState,
)
    requires
        termination_effect(
            TerminationState::Waiting { terminated },
            call,
            look,
            elapsed,
            timeout,
            pid,
            next,
        ),
    ensures
        next is Done <==> look is Ended,
        next matches TerminationState::Done(outcome) ==> outcome.terminated == terminated
            && outcome.code == Some(look->Ended_0),
        next is Waiting <==> look is Running && elapsed < timeout,
        next is Waiting ==> next == (TerminationState::Waiting { terminated }),
{
}

/// A process that ended by itself was not ended by the program, and one that would not be ended is
/// reported as the call was refused.
pub proof fn law_own_ends_are_told_apart(
    call: TerminationCall,
    look: ChildLook,
    elapsed: u64,
    timeout: u64,
    pid: Option<u32>,
    next: TerminationState,
)
    requires
        termination_effect(TerminationState::Start, call, look, elapsed, timeout, pid, next),
    ensures
        next matches TerminationState::Done(outcome) ==> look is Ended && outcome.code == Some(
            look->Ended_0,
        ) && (outcome.terminated <==> (call matches TerminationCall::Made { terminated }
            && terminated)),
        call matches TerminationCall::Refused(failure) ==> look is Running ==> next
            == TerminationState::Failed(failure),
{
}

} // verus!
