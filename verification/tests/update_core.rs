//! Tests of the update-orchestrator core: tracker preconditions and
//! state changes, uploader deduplication, engine outcome stability, and
//! the per-step decisions.

use rack_core::device::{DeviceId, DeviceKind};
use rack_core::engine::{EngineState, StepOutcome, StepStatus};
use rack_core::plan::{ArtifactHash, ArtifactId, KindPlan, UpdatePlan};
use rack_core::steps::{
    choose_rot_target, component_update_steps, confirm_rot_slot, find_write_output,
    phase2_progress_sample, poll_component_update, recovery_startup_options, simulate_result,
    slot_to_boot, slots_to_update, standard_startup_options, step_plan, ComponentUpdateStage,
    HostPhase2Progress, HostPowerState, InstallinatorEvent, M2Slot, PollDecision, PollFailure,
    RotSlotArtifact, SpComponentUpdateStepId, SpUpdateStatus, UpdateComponent, UpdateSimulatedResult,
    UpdateStepId, should_skip_update,
};
use rack_core::tracker::{
    AbortUpdateError, ClearUpdateStateError, DeviceStatus, RecordState, StartUpdateError,
    UpdateTracker,
};
use rack_core::uploader::{TrampolineUploader, UploaderAction};
use rack_core::component::{ComponentId, ParsableComponentId, PowerState};
use rack_core::steps::{installinator_result, rot_reboot_poll, select_sp_artifact, RotRebootPoll};
use rack_core::update_errors::UpdateTerminalError;
use rack_core::version::classify_caboose_version;
use rack_core::steps::{interrogate_rot, RotInterrogation};

fn artifact(kind: &str, version: &str) -> ArtifactId {
    ArtifactId {
        kind: kind.as_bytes().to_vec(),
        name: kind.as_bytes().to_vec(),
        version: version.as_bytes().to_vec(),
    }
}

fn kind_plan() -> KindPlan {
    KindPlan {
        rot_a: artifact("rot_a", "2.0.0"),
        rot_b: artifact("rot_b", "2.0.0"),
        sp_by_board: vec![(b"g0".to_vec(), artifact("sp_g0", "2.0.0"))],
    }
}

fn sample_plan() -> UpdatePlan {
    UpdatePlan {
        system_version: b"8.0.0".to_vec(),
        sled: kind_plan(),
        switch: kind_plan(),
        power: kind_plan(),
        host_phase_1: artifact("host_phase_1", "2.0.0"),
        trampoline_phase_1: artifact("trampoline_phase_1", "2.0.0"),
        trampoline_phase_2: artifact("trampoline_phase_2", "2.0.0"),
        trampoline_phase_2_hash: ArtifactHash(vec![1; 32]),
        control_plane_hash: ArtifactHash(vec![2; 32]),
        host_phase_2_hash: ArtifactHash(vec![3; 32]),
    }
}

fn sled(slot: u16) -> DeviceId {
    DeviceId { kind: DeviceKind::Sled, slot }
}

#[test]
fn tracker_requires_a_repository() {
    let tracker = UpdateTracker::new();
    let errs = tracker.update_pre_checks(&vec![sled(3)]).unwrap_err();
    assert_eq!(errs, vec![StartUpdateError::TufRepositoryUnavailable]);
}

#[test]
fn tracker_start_and_single_update_per_device() {
    let mut tracker = UpdateTracker::new();
    tracker.put_repository(sample_plan()).unwrap();
    assert_eq!(tracker.device_status(&sled(3)), DeviceStatus::NotStarted);

    tracker.start(&vec![sled(3), sled(4)]).unwrap();
    assert_eq!(tracker.device_status(&sled(3)), DeviceStatus::Running);
    assert_eq!(tracker.device_status(&sled(4)), DeviceStatus::Running);
    assert_eq!(tracker.device_status(&sled(5)), DeviceStatus::NotStarted);

    // A second start against a running device reports it, and changes
    // nothing.
    let errs = tracker.start(&vec![sled(3), sled(5)]).unwrap_err();
    assert_eq!(errs, vec![StartUpdateError::UpdateInProgress(vec![sled(3)])]);
    assert_eq!(tracker.device_status(&sled(5)), DeviceStatus::NotStarted);

    // Once the task finishes, the device can be updated again.
    tracker.set_record(&sled(3), RecordState::Finished);
    assert_eq!(tracker.device_status(&sled(3)), DeviceStatus::Finished);
    tracker.start(&vec![sled(3)]).unwrap();
    assert_eq!(tracker.device_status(&sled(3)), DeviceStatus::Running);
}

#[test]
fn tracker_abort_and_clear() {
    let mut tracker = UpdateTracker::new();
    tracker.put_repository(sample_plan()).unwrap();

    assert_eq!(tracker.abort_pre_check(&sled(3)), Err(AbortUpdateError::UpdateNotStarted));
    tracker.start(&vec![sled(3)]).unwrap();
    assert_eq!(tracker.abort_pre_check(&sled(3)), Ok(()));
    assert_eq!(
        tracker.clear_update_state(&sled(3)),
        Err(ClearUpdateStateError::UpdateInProgress)
    );

    tracker.set_record(&sled(3), RecordState::Finished);
    assert_eq!(tracker.abort_pre_check(&sled(3)), Err(AbortUpdateError::UpdateFinished));
    tracker.clear_update_state(&sled(3)).unwrap();
    assert_eq!(tracker.device_status(&sled(3)), DeviceStatus::NotStarted);
    // Clearing an absent record succeeds.
    tracker.clear_update_state(&sled(3)).unwrap();
}

#[test]
fn tracker_plan_replacement_resets_records() {
    let mut tracker = UpdateTracker::new();
    tracker.put_repository(sample_plan()).unwrap();
    tracker.start(&vec![sled(1), sled(2)]).unwrap();

    // A replacement is rejected while tasks run.
    let running = tracker.put_repository(sample_plan()).unwrap_err();
    assert_eq!(running, vec![sled(1), sled(2)]);
    assert_eq!(tracker.device_status(&sled(1)), DeviceStatus::Running);

    tracker.set_record(&sled(1), RecordState::Finished);
    tracker.set_record(&sled(2), RecordState::Finished);
    tracker.put_repository(sample_plan()).unwrap();
    assert_eq!(tracker.device_status(&sled(1)), DeviceStatus::NotStarted);
    assert_eq!(tracker.device_status(&sled(2)), DeviceStatus::NotStarted);
}

#[test]
fn uploader_deduplicates_per_plan() {
    let mut up = TrampolineUploader::new();
    let h1 = ArtifactHash(vec![1; 32]);
    let h2 = ArtifactHash(vec![2; 32]);

    assert_eq!(up.ensure_for_plan(&h1), UploaderAction::Spawn);
    assert_eq!(up.ensure_for_plan(&h1), UploaderAction::Reuse);
    assert_eq!(up.ensure_for_plan(&h1), UploaderAction::Reuse);

    // A different plan image cancels the stale task and spawns once.
    assert_eq!(up.ensure_for_plan(&h2), UploaderAction::CancelAndSpawn);
    assert_eq!(up.ensure_for_plan(&h2), UploaderAction::Reuse);

    up.record_uploaded(b"image-id".to_vec());
    assert_eq!(up.ensure_for_plan(&h2), UploaderAction::Reuse);
    assert_eq!(
        up.current.as_ref().unwrap().uploaded_image_id.as_deref(),
        Some(b"image-id".as_slice())
    );
}

#[test]
fn engine_outcomes_are_terminal() {
    let mut engine = EngineState::new(3);
    engine.start_step(0);
    engine.complete_step(0, StepOutcome::Success);
    engine.start_step(1);
    engine.complete_step(1, StepOutcome::Skipped);
    engine.start_step(2);
    engine.complete_step(2, StepOutcome::Failed);
    assert_eq!(engine.steps[0], StepStatus::Terminal(StepOutcome::Success));
    assert_eq!(engine.steps[1], StepStatus::Terminal(StepOutcome::Skipped));
    assert_eq!(engine.steps[2], StepStatus::Terminal(StepOutcome::Failed));
    assert_eq!(engine.events.len(), 6);
}

#[test]
fn sled_step_plan_is_the_canonical_sequence() {
    let plan = step_plan(DeviceKind::Sled, false);
    let expected = vec![
        (UpdateComponent::Rot, UpdateStepId::InterrogateRot),
        (UpdateComponent::Sp, UpdateStepId::InterrogateSp),
        (UpdateComponent::Rot, UpdateStepId::SpComponentUpdate),
        (UpdateComponent::Sp, UpdateStepId::SpComponentUpdate),
        (UpdateComponent::Host, UpdateStepId::SetHostPowerState(HostPowerState::A2)),
        (UpdateComponent::Host, UpdateStepId::SpComponentUpdate),
        (UpdateComponent::Host, UpdateStepId::WaitingForTrampolinePhase2Upload),
        (UpdateComponent::Host, UpdateStepId::SettingInstallinatorImageId),
        (UpdateComponent::Host, UpdateStepId::SettingHostStartupOptions),
        (UpdateComponent::Host, UpdateStepId::SetHostPowerState(HostPowerState::A0)),
        (UpdateComponent::Host, UpdateStepId::DownloadingInstallinator),
        (UpdateComponent::Host, UpdateStepId::RunningInstallinator),
        (UpdateComponent::Host, UpdateStepId::SetHostPowerState(HostPowerState::A2)),
        (UpdateComponent::Host, UpdateStepId::SpComponentUpdate),
        (UpdateComponent::Host, UpdateStepId::ClearingInstallinatorImageId),
        (UpdateComponent::Host, UpdateStepId::SettingHostStartupOptions),
        (UpdateComponent::Host, UpdateStepId::SetHostPowerState(HostPowerState::A0)),
    ];
    assert_eq!(plan, expected);

    // Switches and power shelves run only the common steps.
    assert_eq!(step_plan(DeviceKind::Switch, false), expected[..4].to_vec());
    assert_eq!(step_plan(DeviceKind::Power, false), expected[..4].to_vec());

    // The test hook prepends a delay step.
    let with_test = step_plan(DeviceKind::Sled, true);
    assert_eq!(with_test[0], (UpdateComponent::Rot, UpdateStepId::TestStep));
    assert_eq!(with_test[1..], expected[..]);
}

#[test]
fn component_sub_engine_sequences() {
    let s = SpComponentUpdateStepId::Sending;
    let p = SpComponentUpdateStepId::Preparing;
    let w = SpComponentUpdateStepId::Writing;
    let b = SpComponentUpdateStepId::SettingActiveBootSlot;
    let r = SpComponentUpdateStepId::Resetting;
    assert_eq!(component_update_steps(UpdateComponent::Rot), vec![s, p, w, b, r, r]);
    assert_eq!(component_update_steps(UpdateComponent::Sp), vec![s, p, w, r]);
    assert_eq!(component_update_steps(UpdateComponent::Host), vec![s, p, w]);
}

#[test]
fn rot_target_is_the_inactive_slot() {
    assert_eq!(choose_rot_target(0), Some((1, RotSlotArtifact::SlotB)));
    assert_eq!(choose_rot_target(1), Some((0, RotSlotArtifact::SlotA)));
    assert_eq!(choose_rot_target(2), None);
}

#[test]
fn rot_update_confirms_the_written_slot() {
    assert_eq!(confirm_rot_slot(1, 1), Ok(()));
    assert_eq!(
        confirm_rot_slot(0, 1),
        Err(UpdateTerminalError::RotUnexpectedActiveSlot { active_slot: 0 })
    );
}

#[test]
fn rot_reboot_poll_times_out() {
    assert_eq!(rot_reboot_poll(Some(1), 0), RotRebootPoll::Answered(1));
    assert_eq!(rot_reboot_poll(None, 5), RotRebootPoll::Retry);
    assert_eq!(rot_reboot_poll(None, 30), RotRebootPoll::TimedOut);
}

#[test]
fn missing_sp_image_fails_the_interrogation() {
    let plan = sample_plan();
    let ok = select_sp_artifact(plan.for_kind(DeviceKind::Sled), &b"g0".to_vec());
    assert_eq!(ok.unwrap().version, b"2.0.0".to_vec());
    let missing = select_sp_artifact(plan.for_kind(DeviceKind::Sled), &b"g9".to_vec());
    assert_eq!(
        missing.unwrap_err(),
        UpdateTerminalError::MissingSpImageForBoard { board: b"g9".to_vec() }
    );
}

#[test]
fn installer_without_write_outcome_fails() {
    assert_eq!(
        installinator_result(None),
        Err(UpdateTerminalError::RunningInstallinatorFailed)
    );
    assert_eq!(installinator_result(Some(vec![M2Slot::A])), Ok(vec![0]));
}

#[test]
fn version_skip_decision() {
    let v2 = b"2.0.0".to_vec();
    let v1 = b"1.0.0".to_vec();
    assert!(should_skip_update(Some(&v2), &v2, false));
    assert!(!should_skip_update(Some(&v1), &v2, false));
    assert!(!should_skip_update(None, &v2, false));
    // The hook that forces the update wins over a matching version.
    assert!(!should_skip_update(Some(&v2), &v2, true));
}

#[test]
fn poll_decisions_follow_the_gateway_status() {
    let id = 7u128;
    let other = 8u128;
    let p = |stage, status: &SpUpdateStatus| poll_component_update(stage, id, status);

    assert_eq!(p(ComponentUpdateStage::Preparing, &SpUpdateStatus::NoUpdate), PollDecision::Fail(PollFailure::UpdateGone));
    assert_eq!(
        p(ComponentUpdateStage::Preparing, &SpUpdateStatus::Preparing { id, progress: Some((1, 4)) }),
        PollDecision::Progress(1, 4)
    );
    assert_eq!(
        p(ComponentUpdateStage::Preparing, &SpUpdateStatus::Preparing { id, progress: None }),
        PollDecision::KeepWaiting
    );
    assert_eq!(
        p(ComponentUpdateStage::Preparing, &SpUpdateStatus::InProgress { id, bytes_received: 10, total_bytes: 100 }),
        PollDecision::StageDone
    );
    assert_eq!(
        p(ComponentUpdateStage::InProgress, &SpUpdateStatus::InProgress { id, bytes_received: 10, total_bytes: 100 }),
        PollDecision::Progress(10, 100)
    );
    assert_eq!(p(ComponentUpdateStage::InProgress, &SpUpdateStatus::Complete { id }), PollDecision::StageDone);
    assert_eq!(
        p(ComponentUpdateStage::InProgress, &SpUpdateStatus::Aborted { id }),
        PollDecision::Fail(PollFailure::UpdateAborted)
    );
    assert_eq!(
        p(ComponentUpdateStage::InProgress, &SpUpdateStatus::Failed { id, code: 3 }),
        PollDecision::Fail(PollFailure::UpdateFailed(3))
    );
    assert_eq!(
        p(ComponentUpdateStage::InProgress, &SpUpdateStatus::RotError { id }),
        PollDecision::Fail(PollFailure::RotError)
    );
    // Any status naming a different update is fatal.
    assert_eq!(
        p(ComponentUpdateStage::Preparing, &SpUpdateStatus::Preparing { id: other, progress: None }),
        PollDecision::Fail(PollFailure::DifferentUpdate)
    );
    assert_eq!(
        p(ComponentUpdateStage::InProgress, &SpUpdateStatus::Complete { id: other }),
        PollDecision::Fail(PollFailure::DifferentUpdate)
    );
}

#[test]
fn installer_write_output_decides_the_boot_slot() {
    let events = vec![
        InstallinatorEvent::Other,
        InstallinatorEvent::WriteOutput(vec![M2Slot::B, M2Slot::A]),
        InstallinatorEvent::Other,
    ];
    let written = find_write_output(&events).unwrap();
    let slots = slots_to_update(&written);
    assert_eq!(slots, vec![0, 1]);
    assert_eq!(slot_to_boot(&slots), Some(0));

    let only_b = slots_to_update(&vec![M2Slot::B]);
    assert_eq!(only_b, vec![1]);
    assert_eq!(slot_to_boot(&only_b), Some(1));

    assert_eq!(slot_to_boot(&vec![]), None);
    assert_eq!(find_write_output(&vec![InstallinatorEvent::Other]), None);
}

#[test]
fn startup_options_shapes() {
    let recovery = recovery_startup_options();
    assert!(recovery.phase2_recovery_mode);
    assert!(!recovery.boot_net && !recovery.kmdb && !recovery.verbose);
    let standard = standard_startup_options();
    assert!(!standard.phase2_recovery_mode);
    assert!(!standard.boot_net && !standard.kmdb && !standard.verbose);
}

#[test]
fn simulated_results_map_to_outcomes() {
    assert_eq!(simulate_result(UpdateSimulatedResult::Success), StepOutcome::Success);
    assert_eq!(simulate_result(UpdateSimulatedResult::Warning), StepOutcome::Warning);
    assert_eq!(simulate_result(UpdateSimulatedResult::Skipped), StepOutcome::Skipped);
    assert_eq!(simulate_result(UpdateSimulatedResult::Failure), StepOutcome::Failed);
}

#[test]
fn phase2_progress_ignores_stale_images() {
    let ours = b"img-1".to_vec();
    let report = HostPhase2Progress::Available {
        image_id: b"img-1".to_vec(),
        offset: 10,
        total_size: 100,
    };
    assert_eq!(phase2_progress_sample(&ours, &report), Some((10, 100)));
    let stale = HostPhase2Progress::Available {
        image_id: b"img-0".to_vec(),
        offset: 10,
        total_size: 100,
    };
    assert_eq!(phase2_progress_sample(&ours, &stale), None);
    assert_eq!(phase2_progress_sample(&ours, &HostPhase2Progress::NoProgress), None);
}

#[test]
fn sp_artifact_is_selected_by_board() {
    let plan = sample_plan();
    let sled_plan = plan.for_kind(DeviceKind::Sled);
    let found = sled_plan.sp_for_board(&b"g0".to_vec());
    assert_eq!(found.unwrap().version, b"2.0.0".to_vec());
    // An unknown board has no image: the interrogation step fails with
    // the missing-image error.
    assert!(sled_plan.sp_for_board(&b"g9".to_vec()).is_none());
}

#[test]
fn device_slot_ranges() {
    assert!(sled(31).valid());
    assert!(!sled(32).valid());
    assert!(DeviceId { kind: DeviceKind::Switch, slot: 1 }.valid());
    assert!(!DeviceId { kind: DeviceKind::Switch, slot: 2 }.valid());
    assert!(DeviceId { kind: DeviceKind::Power, slot: 1 }.valid());
    assert!(!DeviceId { kind: DeviceKind::Power, slot: 2 }.valid());
}

#[test]
fn component_names_and_labels() {
    assert_eq!(ComponentId::Sled(3).name(), "SLED 3");
    assert_eq!(ComponentId::Switch(0).name(), "SWITCH 0");
    assert_eq!(ComponentId::Psc(1).name(), "PSC 1");
    assert_eq!(ComponentId::Sled(31).name(), "SLED 31");
    assert_eq!(PowerState::A0.description(), "working");
    assert_eq!(PowerState::A4.description(), "mechanical off (unplugged)");
    assert_eq!(
        ComponentId::try_from(ParsableComponentId { sp_type: "sled", i: "3" }),
        Ok(ComponentId::Sled(3))
    );
    assert_eq!(
        ComponentId::try_from(ParsableComponentId { sp_type: "power", i: "1" }),
        Ok(ComponentId::Psc(1))
    );
    assert_eq!(
        ComponentId::try_from(ParsableComponentId { sp_type: "sled", i: "32" }),
        Err(())
    );
    assert_eq!(
        ComponentId::try_from(ParsableComponentId { sp_type: "misc", i: "1" }),
        Err(())
    );
}

#[test]
fn caboose_versions_classify_by_semver() {
    // The classifier must agree with the semver library on every sample.
    let samples: [(&[u8], bool); 6] = [
        (b"2.0.0", true),
        (b"1.0.0-alpha.1+build5", true),
        (b"1.0", false),
        (b"unknown", false),
        (b"01.0.0", false),
        (b"\xff\xfe", false),
    ];
    for (bytes, parses) in samples {
        assert_eq!(
            semver::Version::parse(std::str::from_utf8(bytes).unwrap_or("\u{fffd}")).is_ok(),
            parses,
            "sample disagrees with the semver library"
        );
        let (outcome, recorded) = classify_caboose_version(Some(&bytes.to_vec()));
        if parses {
            assert_eq!(outcome, StepOutcome::Success);
            assert_eq!(recorded.as_deref(), Some(bytes));
        } else {
            assert_eq!(outcome, StepOutcome::Warning);
            assert_eq!(recorded, None);
        }
    }
    let (outcome, recorded) = classify_caboose_version(None);
    assert_eq!(outcome, StepOutcome::Warning);
    assert_eq!(recorded, None);
}

#[test]
fn slot_numerals_parse_exactly() {
    assert_eq!(
        ComponentId::try_from(ParsableComponentId { sp_type: "sled", i: "31" }),
        Ok(ComponentId::Sled(31))
    );
    assert_eq!(
        ComponentId::try_from(ParsableComponentId { sp_type: "switch", i: "0" }),
        Ok(ComponentId::Switch(0))
    );
    for bad in ["", "abc", "300", "1234", "3a"] {
        assert_eq!(
            ComponentId::try_from(ParsableComponentId { sp_type: "sled", i: bad }),
            Err(())
        );
    }
}

#[test]
fn rot_interrogation_full_verdict() {
    let v2 = b"2.0.0".to_vec();
    let ok = interrogate_rot(0, Some(&v2)).unwrap();
    assert_eq!(
        ok,
        RotInterrogation {
            slot_to_update: 1,
            artifact: RotSlotArtifact::SlotB,
            outcome: StepOutcome::Success,
            active_version: Some(v2.clone()),
        }
    );
    let warn = interrogate_rot(1, Some(&b"unknown".to_vec())).unwrap();
    assert_eq!(warn.slot_to_update, 0);
    assert_eq!(warn.artifact, RotSlotArtifact::SlotA);
    assert_eq!(warn.outcome, StepOutcome::Warning);
    assert_eq!(warn.active_version, None);
    let none = interrogate_rot(0, None).unwrap();
    assert_eq!(none.outcome, StepOutcome::Warning);
    assert_eq!(
        interrogate_rot(2, Some(&v2)),
        Err(UpdateTerminalError::GetRotActiveSlotFailed)
    );
}
