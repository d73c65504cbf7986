//! The job lifecycle and the decisions an erasure attempt makes.

use wipestation::device::{AtaSecurityCaps, Capabilities, MediaType, SedStatus};
use wipestation::error::WipeError;
use wipestation::job::{
    attempt_prelude, attempt_step, needs_certificate, needs_unfreeze, pick_verification_method,
    resolve_method, transition, verification_outcome, verify_sample_count, AssetDisposition,
    AttemptStep, ErasureEventState, JobCommand, JobState, PollOutcome, TransitionError,
    VerificationMethod,
};
use wipestation::method::{Classification, DestructMethod, Intent, Method, Pattern};

const ALL_STATES: [JobState; 7] = [
    JobState::Queued,
    JobState::InProgress,
    JobState::PendingCoSign,
    JobState::Erased,
    JobState::Destroyed,
    JobState::Quarantined,
    JobState::Aborted,
];

const ALL_COMMANDS: [JobCommand; 6] = [
    JobCommand::Start,
    JobCommand::Abort,
    JobCommand::EscalateToDestroy,
    JobCommand::MarkDestroyed,
    JobCommand::ErasureSucceeded,
    JobCommand::ErasureFailed,
];

#[test]
fn the_happy_path_runs_queued_to_erased() {
    assert_eq!(transition(JobState::Queued, JobCommand::Start), Ok(Some(JobState::InProgress)));
    assert_eq!(
        transition(JobState::InProgress, JobCommand::ErasureSucceeded),
        Ok(Some(JobState::Erased))
    );
    assert_eq!(JobState::Erased.disposition(), Some(AssetDisposition::Erased));
}

#[test]
fn a_failed_attempt_leaves_the_job_for_the_operator() {
    assert_eq!(transition(JobState::InProgress, JobCommand::ErasureFailed), Ok(None));
}

#[test]
fn only_a_queued_job_starts() {
    assert_eq!(
        transition(JobState::InProgress, JobCommand::Start),
        Err(TransitionError::NotQueued(JobState::InProgress))
    );
}

#[test]
fn the_destroy_path_waits_for_a_co_signature() {
    assert_eq!(
        transition(JobState::InProgress, JobCommand::EscalateToDestroy),
        Ok(Some(JobState::PendingCoSign))
    );
    assert_eq!(
        transition(JobState::InProgress, JobCommand::MarkDestroyed),
        Err(TransitionError::NotPendingCoSign(JobState::InProgress))
    );
    assert_eq!(
        transition(JobState::PendingCoSign, JobCommand::MarkDestroyed),
        Ok(Some(JobState::Destroyed))
    );
    assert_eq!(
        transition(JobState::Erased, JobCommand::EscalateToDestroy),
        Err(TransitionError::AlreadyTerminal(JobState::Erased))
    );
}

#[test]
fn terminal_states_never_move() {
    for s in ALL_STATES {
        if !s.is_terminal() {
            continue;
        }
        for c in ALL_COMMANDS {
            match transition(s, c) {
                Ok(Some(t)) => panic!("{s:?} moved to {t:?} on {c:?}"),
                Ok(None) | Err(_) => {}
            }
        }
    }
}

#[test]
fn abort_always_stops_a_live_job() {
    for s in ALL_STATES {
        let r = transition(s, JobCommand::Abort);
        if s.is_terminal() {
            assert_eq!(r, Ok(None));
        } else {
            assert_eq!(r, Ok(Some(JobState::Aborted)));
        }
    }
}

#[test]
fn dispositions_exist_exactly_for_terminal_non_aborted_states() {
    for s in ALL_STATES {
        let has = s.disposition().is_some();
        assert_eq!(has, s.is_terminal() && s != JobState::Aborted, "{s:?}");
    }
    assert_eq!(JobState::Quarantined.disposition(), Some(AssetDisposition::Quarantined));
    assert_eq!(JobState::Destroyed.disposition(), Some(AssetDisposition::Destroyed));
}

#[test]
fn certificates_are_produced_on_erased_and_pending_co_sign() {
    let with: Vec<_> = ALL_STATES.into_iter().filter(|s| needs_certificate(*s)).collect();
    assert_eq!(with, vec![JobState::PendingCoSign, JobState::Erased]);
}

#[test]
fn verification_method_follows_the_erasure_method() {
    assert_eq!(
        pick_verification_method(&Method::NvmeSanitizeCryptoErase { ause: false, no_deallocate: false }),
        VerificationMethod::SampledEntropy
    );
    assert_eq!(
        pick_verification_method(&Method::AtaSecureErase { enhanced: false }),
        VerificationMethod::SampledPattern
    );
    assert_eq!(
        pick_verification_method(&Method::BlockOverwrite { pattern: Pattern::Zeros, passes: 1 }),
        VerificationMethod::SampledPattern
    );
}

#[test]
fn a_pinned_method_wins_over_selection() {
    let caps = Capabilities::default();
    let pinned = Method::Destroy { method: DestructMethod::Shred };
    assert_eq!(
        resolve_method(Some(pinned), &caps, MediaType::SsdNvme, Classification::High, Intent::Reuse),
        Some(pinned)
    );
    assert_eq!(
        resolve_method(None, &caps, MediaType::SsdNvme, Classification::High, Intent::Destroy),
        Some(Method::Destroy { method: DestructMethod::Disintegrate })
    );
}

fn frozen_ata() -> Capabilities {
    Capabilities {
        ata_security: Some(AtaSecurityCaps {
            supported: true,
            enhanced_supported: false,
            estimated_minutes: None,
            enhanced_estimated_minutes: None,
            frozen: true,
        }),
        nvme_sanitize: None,
        trim: false,
        crypto_erase_supported: false,
        sed: SedStatus::Absent,
        hpa_present: false,
        dco_present: false,
        frozen: true,
    }
}

#[test]
fn a_frozen_drive_is_unfrozen_before_the_command() {
    assert!(needs_unfreeze(&frozen_ata()));
    assert_eq!(
        attempt_prelude(&frozen_ata()),
        vec![
            ErasureEventState::Probing,
            ErasureEventState::Unfreezing,
            ErasureEventState::Confirming,
            ErasureEventState::Running
        ]
    );
    assert_eq!(
        attempt_prelude(&Capabilities::default()),
        vec![ErasureEventState::Probing, ErasureEventState::Confirming, ErasureEventState::Running]
    );
}

#[test]
fn an_abort_wins_over_whatever_the_device_reports() {
    assert_eq!(attempt_step(JobState::Aborted, PollOutcome::Completed), AttemptStep::Cancel);
    assert_eq!(attempt_step(JobState::InProgress, PollOutcome::InProgress), AttemptStep::KeepPolling);
    assert_eq!(
        attempt_step(JobState::InProgress, PollOutcome::Completed),
        AttemptStep::Finish(ErasureEventState::Completed)
    );
    assert_eq!(
        attempt_step(JobState::InProgress, PollOutcome::Failed),
        AttemptStep::Finish(ErasureEventState::Failed)
    );
}

#[test]
fn verification_reads_at_least_one_sample() {
    assert_eq!(verify_sample_count(0), 1);
    assert_eq!(verify_sample_count(16), 16);
}

#[test]
fn a_failed_read_back_counts_the_failed_samples() {
    assert_eq!(verification_outcome(&[true, true], true), Ok(()));
    match verification_outcome(&[true, false, false, true], false) {
        Err(WipeError::VerificationFailed(m)) => assert_eq!(m, "2 of 4 samples failed"),
        other => panic!("expected VerificationFailed, got {other:?}"),
    }
}
