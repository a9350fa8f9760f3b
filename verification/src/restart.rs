//! Handing over to an updated copy of the program, one step after the other.
//!
//! The copy is started before anything is given up, and is told to go only once everything was. Each
//! step happens outside; what it came to decides about the next.

use crate::app::App;
use crate::strings::append_text;
use vstd::prelude::*;

verus! {

/// What is done where a restart was given up.
#[derive(Debug)]
pub enum Recovery {
    Nothing,
    /// The restart is called off with a message.
    Cancel(String),
    /// The sessions that were ended are opened again, for a reason.
    Reopen(String),
}

/// What is done where a restart was given up, by the texts.
#[verifier::ext_equal]
pub ghost enum RecoveryModel {
    Nothing,
    Cancel(Seq<char>),
    Reopen(Seq<char>),
}

/// How far a restart has come: the step that is to be taken, or how it ended.
#[derive(Debug)]
pub enum RestartStage {
    /// Every session must be one that can be opened again.
    Validate,
    SaveNotes,
    /// The updated copy is started, and waits at its gate.
    Prepare,
    StopTerminals,
    StopPanes,
    /// The updated copy is told what to open.
    WriteManifest,
    /// The updated copy takes over.
    HandedOver,
    /// The restart was given up; a copy that waits at its gate is sent away.
    GivenUp { dismiss: bool, recovery: Recovery },
}

/// How far a restart has come, by the texts.
#[verifier::ext_equal]
pub ghost enum StageModel {
    Validate,
    SaveNotes,
    Prepare,
    StopTerminals,
    StopPanes,
    WriteManifest,
    HandedOver,
    GivenUp { dismiss: bool, recovery: RecoveryModel },
}

impl View for Recovery {
    type V = RecoveryModel;

    open spec fn view(&self) -> RecoveryModel {
        match *self {
            Recovery::Nothing => RecoveryModel::Nothing,
            Recovery::Cancel(message) => RecoveryModel::Cancel(message@),
            Recovery::Reopen(reason) => RecoveryModel::Reopen(reason@),
        }
    }
}

impl View for RestartStage {
    type V = StageModel;

    open spec fn view(&self) -> StageModel {
        match *self {
            RestartStage::Validate => StageModel::Validate,
            RestartStage::SaveNotes => StageModel::SaveNotes,
            RestartStage::Prepare => StageModel::Prepare,
            RestartStage::StopTerminals => StageModel::StopTerminals,
            RestartStage::StopPanes => StageModel::StopPanes,
            RestartStage::WriteManifest => StageModel::WriteManifest,
            RestartStage::HandedOver => StageModel::HandedOver,
            RestartStage::GivenUp { dismiss, recovery } => StageModel::GivenUp {
                dismiss,
                recovery: recovery@,
            },
        }
    }
}

/// What a step came to.
#[derive(Debug)]
pub enum StepOutcome {
    Done,
    Failed(String),
}

/// What a step came to, by the text.
pub open spec fn outcome_error(outcome: StepOutcome) -> Option<Seq<char>> {
    match outcome {
        StepOutcome::Done => None,
        StepOutcome::Failed(error) => Some(error@),
    }
}

/// How far a restart has come after a step. Sessions that cannot be opened again only put it off. A
/// failure before anything was ended calls it off; one after that opens the ended sessions again.
pub open spec fn next_stage(
    stage: StageModel,
    error: Option<Seq<char>>,
    has_notes: bool,
) -> StageModel {
    match (stage, error) {
        (StageModel::Validate, None) => if has_notes {
            StageModel::SaveNotes
        } else {
            StageModel::Prepare
        },
        (StageModel::Validate, Some(_)) => StageModel::GivenUp {
            dismiss: false,
            recovery: RecoveryModel::Nothing,
        },
        (StageModel::SaveNotes, None) => StageModel::Prepare,
        (StageModel::SaveNotes, Some(error)) => StageModel::GivenUp {
            dismiss: false,
            recovery: RecoveryModel::Cancel(
                "Update installed, but restart was cancelled because the scratchpad could not be saved: "@
                    + error,
            ),
        },
        (StageModel::Prepare, None) => StageModel::StopTerminals,
        (StageModel::Prepare, Some(error)) => StageModel::GivenUp {
            dismiss: false,
            recovery: RecoveryModel::Cancel(
                "Update installed, but the new CST could not start: "@ + error,
            ),
        },
        (StageModel::StopTerminals, None) => StageModel::StopPanes,
        (StageModel::StopTerminals, Some(error)) => StageModel::GivenUp {
            dismiss: true,
            recovery: RecoveryModel::Cancel(
                "Update installed, but restart was cancelled because terminal shells could not stop: "@
                    + error,
            ),
        },
        (StageModel::StopPanes, None) => StageModel::WriteManifest,
        (StageModel::StopPanes, Some(error)) => StageModel::GivenUp {
            dismiss: true,
            recovery: RecoveryModel::Reopen(error),
        },
        (StageModel::WriteManifest, None) => StageModel::HandedOver,
        (StageModel::WriteManifest, Some(error)) => StageModel::GivenUp {
            dismiss: true,
            recovery: RecoveryModel::Reopen(error),
        },
        (StageModel::HandedOver, _) => stage,
        (StageModel::GivenUp { .. }, _) => stage,
    }
}

fn said(start: &str, error: String) -> (message: String)
    ensures
        message@ == start@ + error@,
{
    let mut message = start.to_owned();
    append_text(&mut message, error.as_str());
    message
}

/// How far a restart has come after a step; `has_notes` says whether there are notes to save.
pub fn restart_step(stage: RestartStage, outcome: StepOutcome, has_notes: bool) -> (next:
    RestartStage)
    ensures
        next@ == next_stage(stage@, outcome_error(outcome), has_notes),
{
    match outcome {
        StepOutcome::Done => match stage {
            RestartStage::Validate => {
                if has_notes {
                    RestartStage::SaveNotes
                } else {
                    RestartStage::Prepare
                }
            },
            RestartStage::SaveNotes => RestartStage::Prepare,
            RestartStage::Prepare => RestartStage::StopTerminals,
            RestartStage::StopTerminals => RestartStage::StopPanes,
            RestartStage::StopPanes => RestartStage::WriteManifest,
            RestartStage::WriteManifest => RestartStage::HandedOver,
            ended => ended,
        },
        StepOutcome::Failed(error) => match stage {
            RestartStage::Validate => RestartStage::GivenUp {
                dismiss: false,
                recovery: Recovery::Nothing,
            },
            RestartStage::SaveNotes => RestartStage::GivenUp {
                dismiss: false,
                recovery: Recovery::Cancel(
                    said(
                        "Update installed, but restart was cancelled because the scratchpad could not be saved: ",
                        error,
                    ),
                ),
            },
            RestartStage::Prepare => RestartStage::GivenUp {
                dismiss: false,
                recovery: Recovery::Cancel(
                    said("Update installed, but the new CST could not start: ", error),
                ),
            },
            RestartStage::StopTerminals => RestartStage::GivenUp {
                dismiss: true,
                recovery: Recovery::Cancel(
                    said(
                        "Update installed, but restart was cancelled because terminal shells could not stop: ",
                        error,
                    ),
                ),
            },
            RestartStage::StopPanes => RestartStage::GivenUp {
                dismiss: true,
                recovery: Recovery::Reopen(error),
            },
            RestartStage::WriteManifest => RestartStage::GivenUp {
                dismiss: true,
                recovery: Recovery::Reopen(error),
            },
            ended => ended,
        },
    }
}

/// Calls a restart off where its recovery says so. Returns the reason for which ended sessions are to
/// be opened again, if they are.
pub fn recover(app: &mut App, recovery: Recovery) -> (reopen: Option<String>)
    ensures
        match recovery {
            Recovery::Nothing => reopen is None && *final(app) == *old(app),
            Recovery::Cancel(message) => reopen is None && *final(app) == (App {
                restart_after_update: None,
                status_message: Some(message),
                ..*old(app)
            }),
            Recovery::Reopen(reason) => reopen == Some(reason) && *final(app) == *old(app),
        },
{
    match recovery {
        Recovery::Nothing => None,
        Recovery::Cancel(message) => {
            app.cancel_update_restart_after_failure(message);
            None
        },
        Recovery::Reopen(reason) => Some(reason),
    }
}

/// Why the sessions are opened again where the updated copy was let go and did not come up.
pub fn failed_takeover(error: &str) -> (reason: String)
    ensures
        reason@ == "the updated CST failed before opening its workspace: "@ + error@,
{
    let mut reason = "the updated CST failed before opening its workspace: ".to_owned();
    append_text(&mut reason, error);
    reason
}

/// How far a restart has come after several steps, from the first on.
pub open spec fn stage_after(errors: Seq<Option<Seq<char>>>, has_notes: bool) -> StageModel
    decreases errors.len(),
{
    if errors.len() == 0 {
        StageModel::Validate
    } else {
        next_stage(stage_after(errors.drop_last(), has_notes), errors.last(), has_notes)
    }
}

/// How many steps were taken successfully to get to a stage.
pub open spec fn steps_behind(stage: StageModel, has_notes: bool) -> int {
    let notes: int = if has_notes {
        1
    } else {
        0
    };
    match stage {
        StageModel::Validate => 0,
        StageModel::SaveNotes => 1,
        StageModel::Prepare => 1 + notes,
        StageModel::StopTerminals => 2 + notes,
        StageModel::StopPanes => 3 + notes,
        StageModel::WriteManifest => 4 + notes,
        StageModel::HandedOver => 5 + notes,
        StageModel::GivenUp { .. } => 0,
    }
}

/// Whether a copy of the program waits at its gate.
pub open spec fn copy_waits(stage: StageModel) -> bool {
    stage is StopTerminals || stage is StopPanes || stage is WriteManifest
}

/// An updated copy takes over only after every single step came off: it was started, the notes were
/// saved, and all shells and sessions were ended before.
pub proof fn law_takeover_needs_every_step(errors: Seq<Option<Seq<char>>>, has_notes: bool)
    ensures
        !(stage_after(errors, has_notes) is GivenUp) ==> steps_behind(
            stage_after(errors, has_notes),
            has_notes,
        ) <= errors.len() && forall|i: int|
            0 <= i < steps_behind(stage_after(errors, has_notes), has_notes) ==> (
            #[trigger] errors[i]) is None,
        stage_after(errors, has_notes) is SaveNotes ==> has_notes,
    decreases errors.len(),
{
    if errors.len() > 0 {
        let before = errors.drop_last();
        law_takeover_needs_every_step(before, has_notes);
        let stage = stage_after(before, has_notes);
        lemma_no_step_is_skipped(before, has_notes);
        assert forall|i: int|
            0 <= i < steps_behind(stage_after(errors, has_notes), has_notes) && !(stage_after(
                errors,
                has_notes,
            ) is GivenUp) implies (#[trigger] errors[i]) is None by {
            if i < before.len() {
                assert(errors[i] == before[i]);
            }
        }
    }
}

proof fn lemma_no_step_is_skipped(errors: Seq<Option<Seq<char>>>, has_notes: bool)
    ensures
        ({
            let stage = stage_after(errors, has_notes);
            &&& stage is SaveNotes ==> has_notes
            &&& stage is HandedOver || stage is GivenUp || steps_behind(stage, has_notes)
                == errors.len()
            &&& steps_behind(stage, has_notes) <= errors.len()
        }),
    decreases errors.len(),
{
    if errors.len() > 0 {
        lemma_no_step_is_skipped(errors.drop_last(), has_notes);
    }
}

/// A step that fails ends the restart. A copy that waits at its gate is then sent away, and none is
/// where none waits; and sessions are opened again exactly where some may have been ended.
pub proof fn law_failed_restart_leaves_nothing_behind(
    stage: StageModel,
    error: Seq<char>,
    has_notes: bool,
)
    requires
        !(stage is HandedOver),
        !(stage is GivenUp),
    ensures
        next_stage(stage, Some(error), has_notes) matches StageModel::GivenUp { dismiss, recovery }
            && dismiss == copy_waits(stage) && (recovery is Reopen <==> (stage is StopPanes
            || stage is WriteManifest)),
{
}

} // verus!
