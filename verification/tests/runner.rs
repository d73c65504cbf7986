//! The decisions of one erasure attempt, driven event by event.

use wipestation::certificate::ErasureEventSpec;
use wipestation::device::{AtaSecurityCaps, Capabilities, DeviceId, MediaType, SedStatus};
use wipestation::error::WipeError;
use wipestation::job::{ErasureEventState, JobState, OperatorRef, PollOutcome, VerificationMethod};
use wipestation::method::{Classification, Intent, Method};
use wipestation::runner::{run_step, RunAction, RunEvent, RunPhase};

fn sata_caps(frozen: bool) -> Capabilities {
    Capabilities {
        ata_security: Some(AtaSecurityCaps {
            supported: true,
            enhanced_supported: true,
            estimated_minutes: Some(2),
            enhanced_estimated_minutes: Some(2),
            frozen,
        }),
        nvme_sanitize: None,
        trim: true,
        crypto_erase_supported: false,
        sed: SedStatus::Absent,
        hpa_present: false,
        dco_present: false,
        frozen: false,
    }
}

fn bare_caps() -> Capabilities {
    Capabilities { ata_security: None, ..sata_caps(false) }
}

fn spec(verify: bool, samples: u32) -> ErasureEventSpec {
    ErasureEventSpec {
        device_id: DeviceId::from("dev-0"),
        classification: Classification::High,
        intent: Intent::Reuse,
        method: None,
        verify,
        verify_samples: samples,
        operator: OperatorRef { id: "op-1".into(), display_name: "Alice".into(), email: "alice@example.com".into() },
        asset_tag: None,
        site_label: None,
        ticket_ref: None,
    }
}

/// Feed events in order; return the final phase and every action taken.
fn drive(s: &ErasureEventSpec, events: Vec<RunEvent>) -> (RunPhase, Vec<RunAction>) {
    let mut phase = RunPhase::Lookup;
    let mut all = Vec::new();
    for ev in events {
        let (next, acts) = run_step(s, phase, ev);
        phase = next;
        all.extend(acts);
    }
    (phase, all)
}

fn found(caps: Capabilities) -> RunEvent {
    RunEvent::Found { media: MediaType::SsdSata, caps }
}

#[test]
fn a_verified_attempt_walks_every_phase_and_issues_once() {
    let s = spec(true, 0);
    let enhanced = Method::AtaSecureErase { enhanced: true };
    let (phase, acts) = drive(
        &s,
        vec![
            found(sata_caps(false)),
            RunEvent::LiveCapabilities(sata_caps(false)),
            RunEvent::Issued,
            RunEvent::JobChecked(JobState::InProgress),
            RunEvent::Polled { outcome: PollOutcome::InProgress, reason: String::new() },
            RunEvent::JobChecked(JobState::InProgress),
            RunEvent::Polled { outcome: PollOutcome::Completed, reason: String::new() },
            RunEvent::Verified { passed: vec![true], all_passed: true },
        ],
    );
    assert_eq!(phase, RunPhase::Done);
    assert_eq!(
        acts,
        vec![
            RunAction::Record { method: enhanced },
            RunAction::ReadCapabilities,
            RunAction::RecordCapabilities(sata_caps(false)),
            RunAction::EnterState(ErasureEventState::Confirming),
            RunAction::EnterState(ErasureEventState::Running),
            RunAction::Issue(enhanced),
            RunAction::CheckJob,
            RunAction::Poll,
            RunAction::CheckJob,
            RunAction::Poll,
            RunAction::EnterState(ErasureEventState::Completed),
            RunAction::Verify { check: VerificationMethod::SampledEntropy, samples: 1 },
            RunAction::RecordVerification,
            RunAction::Finish(Ok(())),
        ]
    );
}

#[test]
fn a_frozen_device_is_unfrozen_before_issue() {
    let s = spec(false, 8);
    let (_, acts) = drive(&s, vec![found(sata_caps(false)), RunEvent::LiveCapabilities(sata_caps(true)), RunEvent::Unfrozen]);
    let tail: Vec<_> = acts.into_iter().skip(2).collect();
    assert_eq!(tail[1], RunAction::EnterState(ErasureEventState::Unfreezing));
    assert_eq!(tail[2], RunAction::Unfreeze);
    assert_eq!(tail[3], RunAction::EnterState(ErasureEventState::Confirming));
    assert!(matches!(tail.last(), Some(RunAction::Issue(_))));
}

#[test]
fn no_resolvable_method_is_unsupported_before_anything_is_recorded() {
    let s = spec(true, 8);
    let (phase, acts) = run_step(&s, RunPhase::Lookup, found(bare_caps()));
    assert_eq!(phase, RunPhase::Done);
    assert_eq!(acts, vec![RunAction::Finish(Err(WipeError::MethodUnsupported("no method resolved".into())))]);
}

#[test]
fn a_missing_device_is_reported_by_id() {
    let (phase, acts) = run_step(&spec(true, 8), RunPhase::Lookup, RunEvent::NotFound);
    assert_eq!(phase, RunPhase::Done);
    assert_eq!(acts, vec![RunAction::Finish(Err(WipeError::DeviceNotFound("dev-0".into())))]);
}

#[test]
fn an_abort_cancels_the_running_command() {
    let m = Method::AtaSecureErase { enhanced: true };
    let (phase, acts) = run_step(&spec(true, 8), RunPhase::Running { method: m }, RunEvent::JobChecked(JobState::Aborted));
    assert_eq!(phase, RunPhase::Done);
    assert_eq!(
        acts,
        vec![
            RunAction::Cancel,
            RunAction::EnterState(ErasureEventState::Aborted),
            RunAction::Finish(Err(WipeError::Aborted)),
        ]
    );
}

#[test]
fn a_failed_command_and_a_failed_read_back_end_the_attempt() {
    let m = Method::AtaSecureErase { enhanced: false };
    let s = spec(true, 8);
    let (_, acts) = run_step(&s, RunPhase::Polling { method: m }, RunEvent::Polled { outcome: PollOutcome::Failed, reason: "firmware error".into() });
    assert_eq!(acts[1], RunAction::Finish(Err(WipeError::Backend("firmware error".into()))));

    let (_, acts) = run_step(&s, RunPhase::Verifying, RunEvent::Verified { passed: vec![true, false, true], all_passed: false });
    assert_eq!(acts[1], RunAction::Finish(Err(WipeError::VerificationFailed("1 of 3 samples failed".into()))));
}

#[test]
fn no_read_back_unless_requested_and_an_unexpected_event_changes_nothing() {
    let m = Method::AtaSecureErase { enhanced: false };
    let (phase, acts) = run_step(&spec(false, 8), RunPhase::Polling { method: m }, RunEvent::Polled { outcome: PollOutcome::Completed, reason: String::new() });
    assert_eq!(phase, RunPhase::Done);
    assert_eq!(acts, vec![RunAction::EnterState(ErasureEventState::Completed), RunAction::Finish(Ok(()))]);

    let (phase, acts) = run_step(&spec(true, 8), RunPhase::Running { method: m }, RunEvent::Issued);
    assert_eq!(phase, RunPhase::Running { method: m });
    assert!(acts.is_empty());
}
