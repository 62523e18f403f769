//! The terminal errors an update step can end in.

use vstd::prelude::*;
use crate::plan::ArtifactId;
use crate::steps::{PollFailure, SpComponentUpdateStepId};

verus! {

/// Why an update engine stopped: each variant names the step or gateway
/// interaction that failed. The surrounding process attaches the
/// gateway's own error text when it reports one of these.
#[derive(Clone, Debug, PartialEq, Eq)]
pub enum UpdateTerminalError {
    /// Reading the service processor's caboose failed.
    GetSpCabooseFailed,
    /// The plan has no service-processor image for this board.
    MissingSpImageForBoard { board: Vec<u8> },
    /// Reading the root of trust's caboose failed.
    GetRotCabooseFailed,
    /// Reading the root of trust's active slot failed, or the slot read
    /// was neither of the two.
    GetRotActiveSlotFailed,
    /// Pointing the root of trust at its new slot failed.
    SetRotActiveSlotFailed,
    /// Resetting the root of trust failed.
    RotResetFailed,
    /// Resetting the service processor failed.
    SpResetFailed,
    /// After its reset the root of trust booted this slot, not the one
    /// just written.
    RotUnexpectedActiveSlot { active_slot: u16 },
    /// Driving the host power state failed.
    UpdatePowerStateFailed,
    /// Handing the installer its image identity to the gateway failed.
    SetInstallinatorImageIdFailed,
    /// Selecting the host boot-flash slot failed.
    SetHostBootFlashSlotFailed,
    /// Writing the host startup options failed.
    SetHostStartupOptionsFailed { description: Vec<u8> },
    /// The trampoline phase-2 upload task went away before publishing.
    TrampolinePhase2UploadFailed,
    /// A component update failed at the named sub-engine stage.
    SpComponentUpdateFailed {
        stage: SpComponentUpdateStepId,
        artifact: ArtifactId,
        failure: PollFailure,
    },
    /// Waiting for the installer's first report failed.
    DownloadingInstallinatorFailed,
    /// The installer finished without reporting any disk written.
    RunningInstallinatorFailed,
    /// A test hook asked the step to fail.
    SimulatedFailure,
}

} // verus!
