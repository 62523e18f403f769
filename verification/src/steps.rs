//! The canonical update sequences and the decisions their steps make.
//!
//! A device's engine runs root-of-trust, then service-processor, then (for
//! sleds) host steps, in a fixed order. The bodies here are the decision
//! cores of those steps: which slot to update, whether to skip, how to
//! read the gateway's update status, which disk slot to boot. The
//! surrounding process performs the gateway calls and hands their results
//! in as plain values.

use vstd::prelude::*;
use crate::device::DeviceKind;
use crate::engine::StepOutcome;

verus! {

/// How often the gateway is polled for the progress of an update, in
/// milliseconds.
pub const STATUS_POLL_MILLIS: u64 = 300;

/// How often the root of trust is polled for its active slot after a
/// reset, in seconds.
pub const ROT_BOOT_POLL_SECS: u64 = 1;

/// How long the root of trust is given to boot the written slot before
/// the confirmation step fails, in seconds.
pub const ROT_BOOT_TIMEOUT_SECS: u64 = 30;

/// How often the gateway is polled for trampoline phase-2 delivery while
/// waiting for the installer's first report, in seconds.
pub const PHASE2_PROGRESS_POLL_SECS: u64 = 3;

/// The component a step belongs to.
#[derive(Clone, Copy, Debug, PartialEq, Eq, Structural, PartialOrd, Ord, Hash)]
pub enum UpdateComponent {
    Rot,
    Sp,
    Host,
}

/// The power states a host can be driven through.
#[derive(Clone, Copy, Debug, PartialEq, Eq, Structural, Hash)]
pub enum HostPowerState {
    A0,
    A1,
    A2,
    A3,
    A4,
}

/// The identity of one step of the outer engine.
#[derive(Clone, Copy, Debug, PartialEq, Eq, Structural, Hash)]
pub enum UpdateStepId {
    TestStep,
    InterrogateRot,
    InterrogateSp,
    SpComponentUpdate,
    SetHostPowerState(HostPowerState),
    WaitingForTrampolinePhase2Upload,
    SettingInstallinatorImageId,
    SettingHostStartupOptions,
    DownloadingInstallinator,
    RunningInstallinator,
    ClearingInstallinatorImageId,
}

/// One planned step: the component it belongs to and its identity.
pub type PlannedStep = (UpdateComponent, UpdateStepId);

/// The steps every device runs first: interrogate the root of trust,
/// interrogate the service processor, then update each in turn.
pub open spec fn spec_common_steps() -> Seq<PlannedStep> {
    seq![
        (UpdateComponent::Rot, UpdateStepId::InterrogateRot),
        (UpdateComponent::Sp, UpdateStepId::InterrogateSp),
        (UpdateComponent::Rot, UpdateStepId::SpComponentUpdate),
        (UpdateComponent::Sp, UpdateStepId::SpComponentUpdate),
    ]
}

/// The host steps a sled runs after the common steps: drive the host to
/// standby, deliver the trampoline, wait for its phase-2 upload, hand the
/// installer its image identity, boot the trampoline, run the installer,
/// deliver the real host image, and boot it.
pub open spec fn spec_sled_host_steps() -> Seq<PlannedStep> {
    seq![
        (UpdateComponent::Host, UpdateStepId::SetHostPowerState(HostPowerState::A2)),
        (UpdateComponent::Host, UpdateStepId::SpComponentUpdate),
        (UpdateComponent::Host, UpdateStepId::WaitingForTrampolinePhase2Upload),
        (UpdateComponent::Host, UpdateStepId::SettingInstallinatorImageId),
        (UpdateComponent::Host, UpdateStepId::SettingHostStartupOptions),
        (UpdateComponent::Host, UpdateStepId::SetHostPowerState(HostPowerState::A0)),
        (UpdateComponent::Host, UpdateStepId::DownloadingInstallinator),
        (UpdateComponent::Host, UpdateStepId::RunningInstallinator),
        (UpdateComponent::Host, UpdateStepId::SetHostPowerState(HostPowerState::A2)),
        (UpdateComponent::Host, UpdateStepId::SpComponentUpdate),
        (UpdateComponent::Host, UpdateStepId::ClearingInstallinatorImageId),
        (UpdateComponent::Host, UpdateStepId::SettingHostStartupOptions),
        (UpdateComponent::Host, UpdateStepId::SetHostPowerState(HostPowerState::A0)),
    ]
}

/// The full planned sequence for one device: an optional leading test
/// step, the common steps, and for sleds the host pipeline.
pub open spec fn spec_step_plan(kind: DeviceKind, test_step: bool) -> Seq<PlannedStep> {
    let lead: Seq<PlannedStep> = if test_step {
        seq![(UpdateComponent::Rot, UpdateStepId::TestStep)]
    } else {
        Seq::empty()
    };
    if kind == DeviceKind::Sled {
        lead + spec_common_steps() + spec_sled_host_steps()
    } else {
        lead + spec_common_steps()
    }
}

/// Build the planned step sequence for one device.
///
/// Switches and power shelves run only the common steps; sleds continue
/// with the host pipeline. A test-harness delay step may be prepended.
pub fn step_plan(kind: DeviceKind, test_step: bool) -> (r: Vec<PlannedStep>)
    ensures
        r@ == spec_step_plan(kind, test_step),
{
    let mut out: Vec<PlannedStep> = Vec::new();
    if test_step {
        out.push((UpdateComponent::Rot, UpdateStepId::TestStep));
    }
    out.push((UpdateComponent::Rot, UpdateStepId::InterrogateRot));
    out.push((UpdateComponent::Sp, UpdateStepId::InterrogateSp));
    out.push((UpdateComponent::Rot, UpdateStepId::SpComponentUpdate));
    out.push((UpdateComponent::Sp, UpdateStepId::SpComponentUpdate));
    if matches!(kind, DeviceKind::Sled) {
        out.push((UpdateComponent::Host, UpdateStepId::SetHostPowerState(HostPowerState::A2)));
        out.push((UpdateComponent::Host, UpdateStepId::SpComponentUpdate));
        out.push((UpdateComponent::Host, UpdateStepId::WaitingForTrampolinePhase2Upload));
        out.push((UpdateComponent::Host, UpdateStepId::SettingInstallinatorImageId));
        out.push((UpdateComponent::Host, UpdateStepId::SettingHostStartupOptions));
        out.push((UpdateComponent::Host, UpdateStepId::SetHostPowerState(HostPowerState::A0)));
        out.push((UpdateComponent::Host, UpdateStepId::DownloadingInstallinator));
        out.push((UpdateComponent::Host, UpdateStepId::RunningInstallinator));
        out.push((UpdateComponent::Host, UpdateStepId::SetHostPowerState(HostPowerState::A2)));
        out.push((UpdateComponent::Host, UpdateStepId::SpComponentUpdate));
        out.push((UpdateComponent::Host, UpdateStepId::ClearingInstallinatorImageId));
        out.push((UpdateComponent::Host, UpdateStepId::SettingHostStartupOptions));
        out.push((UpdateComponent::Host, UpdateStepId::SetHostPowerState(HostPowerState::A0)));
    }
    proof {
        assert(out@ =~= spec_step_plan(kind, test_step));
    }
    out
}

/// The identity of one step of the component-update sub-engine.
#[derive(Clone, Copy, Debug, PartialEq, Eq, Structural, Hash)]
pub enum SpComponentUpdateStepId {
    Sending,
    Preparing,
    Writing,
    SettingActiveBootSlot,
    Resetting,
}

/// The sub-engine steps for one component: send the image, watch the
/// gateway prepare and write it; a root of trust is then pointed at the
/// new slot, reset, and watched until it boots that slot; a service
/// processor is only reset; a host boots under the outer engine's
/// control.
pub open spec fn spec_component_update_steps(c: UpdateComponent) -> Seq<SpComponentUpdateStepId> {
    let common = seq![
        SpComponentUpdateStepId::Sending,
        SpComponentUpdateStepId::Preparing,
        SpComponentUpdateStepId::Writing,
    ];
    match c {
        UpdateComponent::Rot => common + seq![
            SpComponentUpdateStepId::SettingActiveBootSlot,
            SpComponentUpdateStepId::Resetting,
            SpComponentUpdateStepId::Resetting,
        ],
        UpdateComponent::Sp => common + seq![SpComponentUpdateStepId::Resetting],
        UpdateComponent::Host => common,
    }
}

/// Build the sub-engine step sequence for one component.
pub fn component_update_steps(c: UpdateComponent) -> (r: Vec<SpComponentUpdateStepId>)
    ensures
        r@ == spec_component_update_steps(c),
{
    let mut out: Vec<SpComponentUpdateStepId> = Vec::new();
    out.push(SpComponentUpdateStepId::Sending);
    out.push(SpComponentUpdateStepId::Preparing);
    out.push(SpComponentUpdateStepId::Writing);
    match c {
        UpdateComponent::Rot => {
            out.push(SpComponentUpdateStepId::SettingActiveBootSlot);
            out.push(SpComponentUpdateStepId::Resetting);
            out.push(SpComponentUpdateStepId::Resetting);
        },
        UpdateComponent::Sp => {
            out.push(SpComponentUpdateStepId::Resetting);
        },
        UpdateComponent::Host => {},
    }
    proof {
        assert(out@ =~= spec_component_update_steps(c));
    }
    out
}

/// Which of the two root-of-trust slot artifacts a plan supplies.
#[derive(Clone, Copy, Debug, PartialEq, Eq, Structural)]
pub enum RotSlotArtifact {
    SlotA,
    SlotB,
}

/// Choose the root-of-trust slot to update from the active slot the
/// gateway reported: the inactive slot is written, so an active slot zero
/// selects slot one and its artifact, and the other way round. Any other
/// reported slot is rejected.
pub fn choose_rot_target(active_slot: u16) -> (r: Option<(u16, RotSlotArtifact)>)
    ensures
        active_slot == 0 ==> r == Some((1u16, RotSlotArtifact::SlotB)),
        active_slot == 1 ==> r == Some((0u16, RotSlotArtifact::SlotA)),
        active_slot > 1 ==> r is None,
{
    if active_slot == 0 {
        Some((1, RotSlotArtifact::SlotB))
    } else if active_slot == 1 {
        Some((0, RotSlotArtifact::SlotA))
    } else {
        None
    }
}

/// The root-of-trust interrogation's conclusion: the slot to write, the
/// artifact to write into it, and the step's verdict on the active
/// slot's caboose version.
#[derive(Clone, Debug, PartialEq, Eq)]
pub struct RotInterrogation {
    pub slot_to_update: u16,
    pub artifact: RotSlotArtifact,
    pub outcome: StepOutcome,
    pub active_version: Option<Vec<u8>>,
}

/// The whole interrogation decision: choose the inactive slot and its
/// artifact from the reported active slot, and classify the active
/// caboose's version.
///
/// An active slot of zero or one selects the other slot and its
/// artifact; any other slot fails the step. The step succeeds carrying
/// the version exactly when the caboose reported one that parses as a
/// semantic version, and warns carrying none otherwise.
pub fn interrogate_rot(active_slot: u16, caboose_version: Option<&Vec<u8>>) -> (r: Result<
    RotInterrogation,
    crate::update_errors::UpdateTerminalError,
>)
    ensures
        r is Ok <==> active_slot <= 1,
        active_slot > 1 ==> r == Err::<RotInterrogation, _>(
            crate::update_errors::UpdateTerminalError::GetRotActiveSlotFailed,
        ),
        r matches Ok(x) ==> {
            &&& (active_slot == 0 ==> x.slot_to_update == 1 && x.artifact
                == RotSlotArtifact::SlotB)
            &&& (active_slot == 1 ==> x.slot_to_update == 0 && x.artifact
                == RotSlotArtifact::SlotA)
            &&& (caboose_version matches Some(v) ==> (if crate::version::is_semver(v@) {
                x.outcome == StepOutcome::Success && (x.active_version matches Some(u) && u@
                    == v@)
            } else {
                x.outcome == StepOutcome::Warning && x.active_version is None
            }))
            &&& (caboose_version is None ==> x.outcome == StepOutcome::Warning
                && x.active_version is None)
        },
{
    let (slot_to_update, artifact) = match choose_rot_target(active_slot) {
        Some(t) => t,
        None => {
            return Err(crate::update_errors::UpdateTerminalError::GetRotActiveSlotFailed);
        },
    };
    let (outcome, active_version) = crate::version::classify_caboose_version(caboose_version);
    Ok(RotInterrogation { slot_to_update, artifact, outcome, active_version })
}

/// Whether a component update is skipped: the active version equals the
/// artifact's version and the version check was not disabled.
pub fn should_skip_update(
    active_version: Option<&Vec<u8>>,
    artifact_version: &Vec<u8>,
    skip_version_check: bool,
) -> (r: bool)
    ensures
        r == (active_version matches Some(v) && v@ == artifact_version@
            && !skip_version_check),
{
    if skip_version_check {
        return false;
    }
    match active_version {
        None => false,
        Some(v) => crate::bytestr::bytes_eq(v.as_slice(), artifact_version.as_slice()),
    }
}

/// A successful root-of-trust update ends with the target slot active.
///
/// The confirmation step reads the active slot after the reset: the step
/// succeeds exactly when that slot is the one just written, and fails
/// with the unexpected slot otherwise.
pub fn confirm_rot_slot(active_slot_after: u16, slot_to_update: u16) -> (r: Result<
    (),
    crate::update_errors::UpdateTerminalError,
>)
    ensures
        r is Ok <==> active_slot_after == slot_to_update,
        r matches Err(e) ==> e == (crate::update_errors::UpdateTerminalError::RotUnexpectedActiveSlot {
            active_slot: active_slot_after,
        }),
{
    if active_slot_after == slot_to_update {
        Ok(())
    } else {
        Err(
            crate::update_errors::UpdateTerminalError::RotUnexpectedActiveSlot {
                active_slot: active_slot_after,
            },
        )
    }
}

/// The gateway's report on an in-flight component update.
#[derive(Clone, Debug, PartialEq, Eq)]
pub enum SpUpdateStatus {
    /// The gateway knows of no update.
    NoUpdate,
    /// The update is being prepared; a progress pair may be included.
    Preparing { id: u128, progress: Option<(u64, u64)> },
    /// Image bytes are being written.
    InProgress { id: u128, bytes_received: u64, total_bytes: u64 },
    /// The update completed.
    Complete { id: u128 },
    /// The update was aborted on the gateway's side.
    Aborted { id: u128 },
    /// The update failed with a numeric code.
    Failed { id: u128, code: u32 },
    /// The root of trust reported an error.
    RotError { id: u128 },
}

/// The stage of an update the poll loop is watching.
#[derive(Clone, Copy, Debug, PartialEq, Eq, Structural)]
pub enum ComponentUpdateStage {
    Preparing,
    InProgress,
}

/// Why a component-update poll gave up.
#[derive(Clone, Copy, Debug, PartialEq, Eq, Structural)]
pub enum PollFailure {
    /// The gateway no longer knows of the update.
    UpdateGone,
    /// The gateway reports a different update in flight.
    DifferentUpdate,
    /// The gateway aborted the update.
    UpdateAborted,
    /// The gateway failed the update, with this code.
    UpdateFailed(u32),
    /// The root of trust rejected the update.
    RotError,
}

/// What one poll of the gateway's status decides.
#[derive(Clone, Copy, Debug, PartialEq, Eq, Structural)]
pub enum PollDecision {
    /// Keep polling; no progress sample to publish.
    KeepWaiting,
    /// Keep polling and publish this progress sample.
    Progress(u64, u64),
    /// The watched stage is over: move on.
    StageDone,
    /// The update is lost: fail the step.
    Fail(PollFailure),
}

/// Decide what one status report from the gateway means for the poll loop
/// of the given stage and update.
///
/// Any status naming a different update identifier is fatal. Preparation
/// progress is published while preparing; the first in-progress report
/// ends the preparation stage; write progress is published in bytes;
/// completion ends the write stage, and completion seen while still
/// preparing also ends that stage. A vanished, aborted, failed or
/// rejected update is fatal.
pub fn poll_component_update(
    stage: ComponentUpdateStage,
    update_id: u128,
    status: &SpUpdateStatus,
) -> (r: PollDecision)
    ensures
        *status == SpUpdateStatus::NoUpdate ==> r == PollDecision::Fail(
            PollFailure::UpdateGone,
        ),
        *status matches SpUpdateStatus::Preparing { id, progress } ==> r == (if id != update_id {
            PollDecision::Fail(PollFailure::DifferentUpdate)
        } else {
            match progress {
                Some((cur, total)) => if stage == ComponentUpdateStage::Preparing {
                    PollDecision::Progress(cur, total)
                } else {
                    PollDecision::KeepWaiting
                },
                None => PollDecision::KeepWaiting,
            }
        }),
        *status matches SpUpdateStatus::InProgress { id, bytes_received, total_bytes } ==> r == (
        if id != update_id {
            PollDecision::Fail(PollFailure::DifferentUpdate)
        } else if stage == ComponentUpdateStage::Preparing {
            PollDecision::StageDone
        } else {
            PollDecision::Progress(bytes_received, total_bytes)
        }),
        *status matches SpUpdateStatus::Complete { id } ==> r == (if id != update_id {
            PollDecision::Fail(PollFailure::DifferentUpdate)
        } else {
            PollDecision::StageDone
        }),
        *status matches SpUpdateStatus::Aborted { id } ==> r == (if id != update_id {
            PollDecision::Fail(PollFailure::DifferentUpdate)
        } else {
            PollDecision::Fail(PollFailure::UpdateAborted)
        }),
        *status matches SpUpdateStatus::Failed { id, code } ==> r == (if id != update_id {
            PollDecision::Fail(PollFailure::DifferentUpdate)
        } else {
            PollDecision::Fail(PollFailure::UpdateFailed(code))
        }),
        *status matches SpUpdateStatus::RotError { id } ==> r == (if id != update_id {
            PollDecision::Fail(PollFailure::DifferentUpdate)
        } else {
            PollDecision::Fail(PollFailure::RotError)
        }),
{
    match status {
        SpUpdateStatus::NoUpdate => PollDecision::Fail(PollFailure::UpdateGone),
        SpUpdateStatus::Preparing { id, progress } => {
            if *id != update_id {
                PollDecision::Fail(PollFailure::DifferentUpdate)
            } else {
                match progress {
                    Some((cur, total)) => {
                        if matches!(stage, ComponentUpdateStage::Preparing) {
                            PollDecision::Progress(*cur, *total)
                        } else {
                            PollDecision::KeepWaiting
                        }
                    },
                    None => PollDecision::KeepWaiting,
                }
            }
        },
        SpUpdateStatus::InProgress { id, bytes_received, total_bytes } => {
            if *id != update_id {
                PollDecision::Fail(PollFailure::DifferentUpdate)
            } else if matches!(stage, ComponentUpdateStage::Preparing) {
                PollDecision::StageDone
            } else {
                PollDecision::Progress(*bytes_received, *total_bytes)
            }
        },
        SpUpdateStatus::Complete { id } => {
            if *id != update_id {
                PollDecision::Fail(PollFailure::DifferentUpdate)
            } else {
                PollDecision::StageDone
            }
        },
        SpUpdateStatus::Aborted { id } => {
            if *id != update_id {
                PollDecision::Fail(PollFailure::DifferentUpdate)
            } else {
                PollDecision::Fail(PollFailure::UpdateAborted)
            }
        },
        SpUpdateStatus::Failed { id, code } => {
            if *id != update_id {
                PollDecision::Fail(PollFailure::DifferentUpdate)
            } else {
                PollDecision::Fail(PollFailure::UpdateFailed(*code))
            }
        },
        SpUpdateStatus::RotError { id } => {
            if *id != update_id {
                PollDecision::Fail(PollFailure::DifferentUpdate)
            } else {
                PollDecision::Fail(PollFailure::RotError)
            }
        },
    }
}

/// A disk slot the in-host installer wrote.
#[derive(Clone, Copy, Debug, PartialEq, Eq, Structural, PartialOrd, Ord, Hash)]
pub enum M2Slot {
    A,
    B,
}

impl M2Slot {
    /// The boot-flash slot number this disk slot corresponds to.
    pub open spec fn spec_slot_number(self) -> u16 {
        match self {
            M2Slot::A => 0,
            M2Slot::B => 1,
        }
    }

    pub fn slot_number(&self) -> (r: u16)
        ensures
            r == self.spec_slot_number(),
    {
        match self {
            M2Slot::A => 0,
            M2Slot::B => 1,
        }
    }
}

/// The boot-flash slots to deliver the host image to, from the set of
/// disk slots the installer reported written: slot A maps to zero and
/// slot B to one, without duplicates, in rising order.
pub fn slots_to_update(slots_written: &Vec<M2Slot>) -> (r: Vec<u16>)
    ensures
        r@.contains(0u16) <==> slots_written@.contains(M2Slot::A),
        r@.contains(1u16) <==> slots_written@.contains(M2Slot::B),
        forall|k: int| 0 <= k < r@.len() ==> #[trigger] r@[k] <= 1,
        forall|a: int, b: int| 0 <= a < b < r@.len() ==> r@[a] < r@[b],
{
    let mut has_a = false;
    let mut has_b = false;
    let mut i: usize = 0;
    while i < slots_written.len()
        invariant
            i <= slots_written@.len(),
            has_a == slots_written@.take(i as int).contains(M2Slot::A),
            has_b == slots_written@.take(i as int).contains(M2Slot::B),
        decreases slots_written@.len() - i,
    {
        proof {
            assert(slots_written@.take(i as int + 1).drop_last() =~= slots_written@.take(
                i as int,
            ));
            assert(slots_written@.take(i as int + 1).last() == slots_written@[i as int]);
            assert forall|s: M2Slot|
                slots_written@.take(i as int + 1).contains(s) == (slots_written@.take(
                    i as int,
                ).contains(s) || slots_written@[i as int] == s) by {
                let t1 = slots_written@.take(i as int + 1);
                let t0 = slots_written@.take(i as int);
                if t1.contains(s) {
                    let k = choose|k: int| 0 <= k < t1.len() && t1[k] == s;
                    if k < i {
                        assert(t0[k] == s);
                    }
                } else {
                    if t0.contains(s) {
                        let k = choose|k: int| 0 <= k < t0.len() && t0[k] == s;
                        assert(t1[k] == s);
                    }
                    assert(t1[i as int] == slots_written@[i as int]);
                }
            }
        }
        match slots_written[i] {
            M2Slot::A => {
                has_a = true;
            },
            M2Slot::B => {
                has_b = true;
            },
        }
        i += 1;
    }
    proof {
        assert(slots_written@.take(i as int) =~= slots_written@);
    }
    let mut out: Vec<u16> = Vec::new();
    if has_a {
        out.push(0);
    }
    if has_b {
        out.push(1);
    }
    proof {
        if has_a {
            assert(out@[0] == 0u16);
        }
        if has_b {
            assert(out@[out@.len() - 1] == 1u16);
        }
        assert forall|v: u16| out@.contains(v) implies (v == 0u16 && has_a) || (v == 1u16
            && has_b) by {
            let k = choose|k: int| 0 <= k < out@.len() && out@[k] == v;
        }
    }
    out
}

/// The disk slot the host is persistently configured to boot after the
/// installer finishes: the lowest slot written. With nothing written
/// there is no slot to boot, and the step fails.
pub fn slot_to_boot(slots: &Vec<u16>) -> (r: Option<u16>)
    ensures
        r is Some <==> slots@.len() > 0,
        r matches Some(s) ==> slots@.contains(s) && forall|k: int|
            0 <= k < slots@.len() ==> s <= #[trigger] slots@[k],
{
    if slots.len() == 0 {
        return None;
    }
    let mut best: u16 = slots[0];
    let mut i: usize = 1;
    while i < slots.len()
        invariant
            1 <= i <= slots@.len(),
            slots@.contains(best),
            forall|k: int| 0 <= k < i ==> best <= #[trigger] slots@[k],
        decreases slots@.len() - i,
    {
        if slots[i] < best {
            best = slots[i];
        }
        i += 1;
    }
    Some(best)
}

/// What one poll for the rebooted root of trust decides: the confirmation
/// step keeps polling through failures until its timeout, then gives up.
#[derive(Clone, Copy, Debug, PartialEq, Eq, Structural)]
pub enum RotRebootPoll {
    /// The root of trust answered with its active slot.
    Answered(u16),
    /// No answer yet; poll again after the poll interval.
    Retry,
    /// No answer and the timeout has passed: the step fails.
    TimedOut,
}

/// Decide one round of the post-reset poll from the gateway's answer and
/// the time spent so far.
pub fn rot_reboot_poll(active_slot: Option<u16>, elapsed_secs: u64) -> (r: RotRebootPoll)
    ensures
        active_slot matches Some(s) ==> r == RotRebootPoll::Answered(s),
        active_slot is None && elapsed_secs < ROT_BOOT_TIMEOUT_SECS ==> r
            == RotRebootPoll::Retry,
        active_slot is None && elapsed_secs >= ROT_BOOT_TIMEOUT_SECS ==> r
            == RotRebootPoll::TimedOut,
{
    match active_slot {
        Some(s) => RotRebootPoll::Answered(s),
        None => {
            if elapsed_secs < ROT_BOOT_TIMEOUT_SECS {
                RotRebootPoll::Retry
            } else {
                RotRebootPoll::TimedOut
            }
        },
    }
}

/// The host startup options of one boot configuration: every flag off,
/// except that recovery boots fetch phase two over the management
/// network.
#[derive(Clone, Copy, Debug, PartialEq, Eq, Structural)]
pub struct HostStartupOptions {
    pub boot_net: bool,
    pub boot_ramdisk: bool,
    pub bootrd: bool,
    pub kbm: bool,
    pub kmdb: bool,
    pub kmdb_boot: bool,
    pub phase2_recovery_mode: bool,
    pub prom: bool,
    pub verbose: bool,
}

/// Whether every flag of `o` is off except possibly phase-2 recovery.
pub open spec fn spec_all_off_except_recovery(o: HostStartupOptions) -> bool {
    !o.boot_net && !o.boot_ramdisk && !o.bootrd && !o.kbm && !o.kmdb && !o.kmdb_boot && !o.prom
        && !o.verbose
}

/// The options set before booting the trampoline: everything off, with
/// phase-2 recovery mode on.
pub fn recovery_startup_options() -> (r: HostStartupOptions)
    ensures
        spec_all_off_except_recovery(r),
        r.phase2_recovery_mode,
{
    HostStartupOptions {
        boot_net: false,
        boot_ramdisk: false,
        bootrd: false,
        kbm: false,
        kmdb: false,
        kmdb_boot: false,
        phase2_recovery_mode: true,
        prom: false,
        verbose: false,
    }
}

/// The options set before booting the installed host: everything off.
pub fn standard_startup_options() -> (r: HostStartupOptions)
    ensures
        spec_all_off_except_recovery(r),
        !r.phase2_recovery_mode,
{
    HostStartupOptions {
        boot_net: false,
        boot_ramdisk: false,
        bootrd: false,
        kbm: false,
        kmdb: false,
        kmdb_boot: false,
        phase2_recovery_mode: false,
        prom: false,
        verbose: false,
    }
}

/// Select the service-processor artifact for the board the caboose
/// reported, as the interrogation step does.
///
/// Succeeds exactly when the plan carries an image for the board; a
/// board without one fails the step with the board's name.
pub fn select_sp_artifact<'a>(plan: &'a crate::plan::KindPlan, board: &Vec<u8>) -> (r: Result<
    &'a crate::plan::ArtifactId,
    crate::update_errors::UpdateTerminalError,
>)
    ensures
        r matches Ok(a) ==> crate::plan::spec_sp_for_board(plan.sp_by_board@, board@) == Some(
            *a,
        ),
        r matches Err(e) ==> {
            &&& crate::plan::spec_sp_for_board(plan.sp_by_board@, board@) is None
            &&& e matches crate::update_errors::UpdateTerminalError::MissingSpImageForBoard {
                board: b,
            } && b@ == board@
        },
{
    match plan.sp_for_board(board) {
        Some(a) => Ok(a),
        None => Err(
            crate::update_errors::UpdateTerminalError::MissingSpImageForBoard {
                board: board.clone(),
            },
        ),
    }
}

/// Conclude the installer step from the reports' scan: the disk slots it
/// wrote, in boot-flash numbering, or the terminal error when no report
/// carried a write outcome.
pub fn installinator_result(found: Option<Vec<M2Slot>>) -> (r: Result<
    Vec<u16>,
    crate::update_errors::UpdateTerminalError,
>)
    ensures
        r is Ok <==> found is Some,
        found is None <==> r == Err::<Vec<u16>, _>(
            crate::update_errors::UpdateTerminalError::RunningInstallinatorFailed,
        ),
        r matches Ok(slots) ==> {
            &&& found is Some
            &&& (slots@.contains(0u16) <==> (found->0)@.contains(M2Slot::A))
            &&& (slots@.contains(1u16) <==> (found->0)@.contains(M2Slot::B))
            &&& forall|a: int, b: int| 0 <= a < b < slots@.len() ==> slots@[a] < slots@[b]
        },
{
    match found {
        None => Err(crate::update_errors::UpdateTerminalError::RunningInstallinatorFailed),
        Some(written) => Ok(slots_to_update(&written)),
    }
}

/// The outcome a test-harness hook asks a step to resolve to.
#[derive(Clone, Copy, Debug, PartialEq, Eq, Structural)]
pub enum UpdateSimulatedResult {
    Success,
    Warning,
    Skipped,
    Failure,
}

/// Resolve a step directly to the outcome a test-harness hook requested.
pub fn simulate_result(result: UpdateSimulatedResult) -> (r: StepOutcome)
    ensures
        result == UpdateSimulatedResult::Success ==> r == StepOutcome::Success,
        result == UpdateSimulatedResult::Warning ==> r == StepOutcome::Warning,
        result == UpdateSimulatedResult::Skipped ==> r == StepOutcome::Skipped,
        result == UpdateSimulatedResult::Failure ==> r == StepOutcome::Failed,
{
    match result {
        UpdateSimulatedResult::Success => StepOutcome::Success,
        UpdateSimulatedResult::Warning => StepOutcome::Warning,
        UpdateSimulatedResult::Skipped => StepOutcome::Skipped,
        UpdateSimulatedResult::Failure => StepOutcome::Failed,
    }
}

/// What the gateway reports of the trampoline phase-2 delivery, reduced
/// to plain values.
#[derive(Clone, Debug, PartialEq, Eq)]
pub enum HostPhase2Progress {
    /// Delivery of the image with this identifier has reached `offset` of
    /// `total_size` bytes.
    Available { image_id: Vec<u8>, offset: u64, total_size: u64 },
    /// No delivery is known.
    NoProgress,
}

/// Decide whether a phase-2 delivery report is progress of this update's
/// image: a report for our image id is forwarded as a progress sample; a
/// report for a different image is stale and ignored, as is no report.
pub fn phase2_progress_sample(our_image_id: &Vec<u8>, report: &HostPhase2Progress) -> (r: Option<
    (u64, u64),
>)
    ensures
        match r {
            Some((offset, total)) => report matches HostPhase2Progress::Available {
                image_id,
                offset: o,
                total_size: t,
            } && image_id@ == our_image_id@ && o == offset && t == total,
            None => !(report matches HostPhase2Progress::Available { image_id, .. }
                && image_id@ == our_image_id@),
        },
{
    match report {
        HostPhase2Progress::NoProgress => None,
        HostPhase2Progress::Available { image_id, offset, total_size } => {
            if crate::bytestr::bytes_eq(image_id.as_slice(), our_image_id.as_slice()) {
                Some((*offset, *total_size))
            } else {
                None
            }
        },
    }
}

/// One entry of an installer event report, reduced to what the relay
/// reads: whether the event carries the installer's write outcome, and
/// the disk slots that outcome names.
#[derive(Clone, Debug, PartialEq, Eq)]
pub enum InstallinatorEvent {
    /// A completion event carrying the write output: the disk slots the
    /// installer wrote.
    WriteOutput(Vec<M2Slot>),
    /// Any other event.
    Other,
}

/// The first write output among the report's events, if any.
pub open spec fn spec_first_write_output(events: Seq<InstallinatorEvent>) -> Option<Seq<M2Slot>>
    decreases events.len(),
{
    if events.len() == 0 {
        None
    } else if events[0] is WriteOutput {
        Some((events[0]->WriteOutput_0)@)
    } else {
        spec_first_write_output(events.drop_first())
    }
}

/// Scan an installer report for the completion event that names the disk
/// slots written, as the relay does for each report it forwards.
pub fn find_write_output(events: &Vec<InstallinatorEvent>) -> (r: Option<Vec<M2Slot>>)
    ensures
        match r {
            Some(v) => spec_first_write_output(events@) == Some(v@),
            None => spec_first_write_output(events@) is None,
        },
{
    let mut i: usize = 0;
    proof {
        assert(events@.skip(0) =~= events@);
    }
    while i < events.len()
        invariant
            i <= events@.len(),
            spec_first_write_output(events@) == spec_first_write_output(
                events@.skip(i as int),
            ),
        decreases events@.len() - i,
    {
        proof {
            assert(events@.skip(i as int).len() > 0);
            assert(events@.skip(i as int)[0] == events@[i as int]);
            assert(events@.skip(i as int).drop_first() =~= events@.skip(i as int + 1));
        }
        match &events[i] {
            InstallinatorEvent::WriteOutput(v) => {
                let c = v.clone();
                proof {
                    assert(c@ =~= v@);
                }
                return Some(c);
            },
            InstallinatorEvent::Other => {},
        }
        i += 1;
    }
    proof {
        assert(events@.skip(i as int).len() == 0);
    }
    None
}

} // verus!
