//! The decisions of one erasure attempt, as a step function. The runner
//! that drives an attempt performs each action (looking the device up,
//! unfreezing it, issuing the command, polling, reading back) and hands
//! the outcome back as the next event; everything it decides lives here.

use vstd::prelude::*;

use crate::certificate::ErasureEventSpec;
use crate::device::{Capabilities, MediaType};
use crate::error::WipeError;
use crate::job::{
    ErasureEventState, JobState, PollOutcome, VerificationMethod, failures_upto, needs_unfreeze,
    pick_verification_method, resolve_method, spec_needs_unfreeze, verification_for, verification_outcome,
    verify_sample_count,
};
use crate::method::{Method, spec_select_method};
use crate::text::decimal;

verus! {

/// Where an attempt stands, and what it waits for.
#[derive(Debug, Clone, Copy, PartialEq, Eq, Structural)]
pub enum RunPhase {
    /// Nothing done yet; waits for the device to be looked up.
    Lookup,
    /// The attempt is recorded; waits for the capabilities read again just
    /// before issue.
    Reprobing { method: Method },
    /// Waits for the device to be unfrozen.
    Unfreezing { method: Method },
    /// The command is being issued; waits for the backend to accept it.
    Issuing { method: Method },
    /// The command runs; waits for the job's current state.
    Running { method: Method },
    /// The command runs; waits for the backend's progress report.
    Polling { method: Method },
    /// Waits for the read-back report.
    Verifying,
    /// The attempt is over.
    Done,
}

/// What the runner reports back after performing an action.
#[derive(Debug, PartialEq, Eq)]
pub enum RunEvent {
    /// The device is attached, with this media and these capabilities.
    Found { media: MediaType, caps: Capabilities },
    /// No attached device has the requested id.
    NotFound,
    /// The capabilities as read again just before issue.
    LiveCapabilities(Capabilities),
    /// The device is unfrozen.
    Unfrozen,
    /// The backend accepted the command.
    Issued,
    /// The job's current state.
    JobChecked(JobState),
    /// The backend's progress report; `reason` is its explanation of a
    /// failure.
    Polled { outcome: PollOutcome, reason: String },
    /// The read-back report: which samples passed, and whether all did.
    Verified { passed: Vec<bool>, all_passed: bool },
    /// A backend call failed.
    BackendFailed(WipeError),
}

/// What the runner is to do next.
#[derive(Debug, PartialEq, Eq)]
pub enum RunAction {
    /// Record the attempt on the job with this method, started now, in the
    /// `Probing` state.
    Record { method: Method },
    /// Read the device's capabilities again.
    ReadCapabilities,
    /// Keep these capabilities as the attempt's snapshot.
    RecordCapabilities(Capabilities),
    /// Move the recorded attempt to this state (a final state also ends it
    /// now).
    EnterState(ErasureEventState),
    /// Unfreeze the device.
    Unfreeze,
    /// Issue the erasure command.
    Issue(Method),
    /// Read the job's current state.
    CheckJob,
    /// Ask the backend how the command is doing.
    Poll,
    /// Cancel the running command.
    Cancel,
    /// Read the device back.
    Verify { check: VerificationMethod, samples: u32 },
    /// Record the read-back report on the job.
    RecordVerification,
    /// The attempt ends with this result.
    Finish(Result<(), WipeError>),
}

/// The method an attempt uses: the pinned one, else automatic selection.
pub open spec fn resolved_method(spec: ErasureEventSpec, media: MediaType, caps: Capabilities) -> Option<Method> {
    match spec.method {
        Some(m) => Some(m),
        None => spec_select_method(caps, media, spec.classification, spec.intent),
    }
}

/// The phases that wait for something.
pub open spec fn waiting(p: RunPhase) -> bool {
    !(p is Done)
}

/// The phase after an event.
pub open spec fn next_phase(spec: ErasureEventSpec, p: RunPhase, ev: RunEvent) -> RunPhase {
    if waiting(p) && ev is BackendFailed {
        RunPhase::Done
    } else {
        match (p, ev) {
            (RunPhase::Lookup, RunEvent::NotFound) => RunPhase::Done,
            (RunPhase::Lookup, RunEvent::Found { media, caps }) => match resolved_method(spec, media, caps) {
                Some(m) => RunPhase::Reprobing { method: m },
                None => RunPhase::Done,
            },
            (RunPhase::Reprobing { method }, RunEvent::LiveCapabilities(c)) => if spec_needs_unfreeze(c) {
                RunPhase::Unfreezing { method }
            } else {
                RunPhase::Issuing { method }
            },
            (RunPhase::Unfreezing { method }, RunEvent::Unfrozen) => RunPhase::Issuing { method },
            (RunPhase::Issuing { method }, RunEvent::Issued) => RunPhase::Running { method },
            (RunPhase::Running { method }, RunEvent::JobChecked(s)) => if s is Aborted {
                RunPhase::Done
            } else {
                RunPhase::Polling { method }
            },
            (RunPhase::Polling { method }, RunEvent::Polled { outcome, reason }) => match outcome {
                PollOutcome::InProgress => RunPhase::Running { method },
                PollOutcome::Failed => RunPhase::Done,
                PollOutcome::Completed => if spec.verify { RunPhase::Verifying } else { RunPhase::Done },
            },
            (RunPhase::Verifying, RunEvent::Verified { passed, all_passed }) => RunPhase::Done,
            _ => p,
        }
    }
}

/// The text of a failed read-back: how many samples failed, of how many.
pub open spec fn failed_samples_text(passed: Seq<bool>) -> Seq<char> {
    decimal(failures_upto(passed, passed.len() as int)) + " of "@ + decimal(passed.len() as nat) + " samples failed"@
}

/// The actions an event calls for.
pub open spec fn step_actions(spec: ErasureEventSpec, p: RunPhase, ev: RunEvent, acts: Seq<RunAction>) -> bool {
    if waiting(p) && ev is BackendFailed {
        match ev {
            RunEvent::BackendFailed(e) => acts == seq![RunAction::Finish(Err(e))],
            _ => false,
        }
    } else {
        match (p, ev) {
            (RunPhase::Lookup, RunEvent::NotFound) => acts.len() == 1
                && (acts[0] matches RunAction::Finish(Err(WipeError::DeviceNotFound(d))) && d@ == spec.device_id.0@),
            (RunPhase::Lookup, RunEvent::Found { media, caps }) => match resolved_method(spec, media, caps) {
                Some(m) => acts == seq![RunAction::Record { method: m }, RunAction::ReadCapabilities],
                None => acts.len() == 1
                    && (acts[0] matches RunAction::Finish(Err(WipeError::MethodUnsupported(t))) && t@ == "no method resolved"@),
            },
            (RunPhase::Reprobing { method }, RunEvent::LiveCapabilities(c)) => if spec_needs_unfreeze(c) {
                acts == seq![
                    RunAction::RecordCapabilities(c),
                    RunAction::EnterState(ErasureEventState::Unfreezing),
                    RunAction::Unfreeze,
                ]
            } else {
                acts == seq![
                    RunAction::RecordCapabilities(c),
                    RunAction::EnterState(ErasureEventState::Confirming),
                    RunAction::EnterState(ErasureEventState::Running),
                    RunAction::Issue(method),
                ]
            },
            (RunPhase::Unfreezing { method }, RunEvent::Unfrozen) => acts == seq![
                RunAction::EnterState(ErasureEventState::Confirming),
                RunAction::EnterState(ErasureEventState::Running),
                RunAction::Issue(method),
            ],
            (RunPhase::Issuing { method }, RunEvent::Issued) => acts == seq![RunAction::CheckJob],
            (RunPhase::Running { method }, RunEvent::JobChecked(s)) => if s is Aborted {
                acts == seq![
                    RunAction::Cancel,
                    RunAction::EnterState(ErasureEventState::Aborted),
                    RunAction::Finish(Err(WipeError::Aborted)),
                ]
            } else {
                acts == seq![RunAction::Poll]
            },
            (RunPhase::Polling { method }, RunEvent::Polled { outcome, reason }) => match outcome {
                PollOutcome::InProgress => acts == seq![RunAction::CheckJob],
                PollOutcome::Failed => acts == seq![
                    RunAction::EnterState(ErasureEventState::Failed),
                    RunAction::Finish(Err(WipeError::Backend(reason))),
                ],
                PollOutcome::Completed => if spec.verify {
                    acts == seq![
                        RunAction::EnterState(ErasureEventState::Completed),
                        RunAction::Verify {
                            check: verification_for(method),
                            samples: if spec.verify_samples >= 1 { spec.verify_samples } else { 1 },
                        },
                    ]
                } else {
                    acts == seq![
                        RunAction::EnterState(ErasureEventState::Completed),
                        RunAction::Finish(Ok(())),
                    ]
                },
            },
            (RunPhase::Verifying, RunEvent::Verified { passed, all_passed }) => acts.len() == 2
                && acts[0] == RunAction::RecordVerification
                && (if all_passed {
                    acts[1] matches RunAction::Finish(Ok(_))
                } else {
                    acts[1] matches RunAction::Finish(Err(WipeError::VerificationFailed(m))) && m@ == failed_samples_text(passed@)
                }),
            _ => acts.len() == 0,
        }
    }
}

/// Decide what an event does to an attempt: its next phase and the actions
/// the runner performs, in order. An event the phase does not wait for
/// changes nothing.
/// The step issues the erasure command: it moves the attempt into
/// `Issuing`.
pub open spec fn issues_on(spec: ErasureEventSpec, p: RunPhase, ev: RunEvent) -> bool {
    next_phase(spec, p, ev) is Issuing && !(p is Issuing)
}

/// The step starts the read-back: it moves the attempt into `Verifying`.
pub open spec fn verifies_on(spec: ErasureEventSpec, p: RunPhase, ev: RunEvent) -> bool {
    next_phase(spec, p, ev) is Verifying && !(p is Verifying)
}

/// The phases before the command is issued.
pub open spec fn before_issue(p: RunPhase) -> bool {
    p is Lookup || p is Reprobing || p is Unfreezing
}

/// How many steps of the run from `p` through the events issue the command.
pub open spec fn issue_count(spec: ErasureEventSpec, p: RunPhase, evs: Seq<RunEvent>) -> nat
    decreases evs.len(),
{
    if evs.len() == 0 {
        0
    } else {
        (if issues_on(spec, p, evs[0]) { 1nat } else { 0nat })
            + issue_count(spec, next_phase(spec, p, evs[0]), evs.drop_first())
    }
}

/// Some action is the issue of the command.
pub open spec fn has_issue(acts: Seq<RunAction>) -> bool {
    exists|i: int| 0 <= i < acts.len() && acts[i] is Issue
}

/// Some action is a read-back.
pub open spec fn has_verify(acts: Seq<RunAction>) -> bool {
    exists|i: int| 0 <= i < acts.len() && acts[i] is Verify
}

/// A step issues the command exactly when it moves the attempt into
/// `Issuing`, and starts a read-back exactly when it moves it into
/// `Verifying`.
pub proof fn law_actions_follow_the_phase(spec: ErasureEventSpec, p: RunPhase, ev: RunEvent, acts: Seq<RunAction>)
    requires
        step_actions(spec, p, ev, acts),
    ensures
        has_issue(acts) == issues_on(spec, p, ev),
        has_verify(acts) == verifies_on(spec, p, ev),
{
    if has_issue(acts) {
        let i = choose|i: int| 0 <= i < acts.len() && acts[i] is Issue;
        assert(acts[i] is Issue);
    }
    if has_verify(acts) {
        let i = choose|i: int| 0 <= i < acts.len() && acts[i] is Verify;
        assert(acts[i] is Verify);
    }
    if issues_on(spec, p, ev) {
        assert(acts[acts.len() - 1] is Issue);
    }
    if verifies_on(spec, p, ev) {
        assert(acts[1] is Verify);
    }
}

/// A method that cannot be resolved ends the attempt at once as
/// unsupported: nothing is recorded and nothing is issued.
pub proof fn law_no_method_means_unsupported(spec: ErasureEventSpec, media: MediaType, caps: Capabilities, acts: Seq<RunAction>)
    requires
        resolved_method(spec, media, caps) is None,
        step_actions(spec, RunPhase::Lookup, RunEvent::Found { media, caps }, acts),
    ensures
        next_phase(spec, RunPhase::Lookup, RunEvent::Found { media, caps }) is Done,
        acts.len() == 1,
        acts[0] matches RunAction::Finish(Err(WipeError::MethodUnsupported(t))) && t@ == "no method resolved"@,
{
}

/// A read-back only ever starts when the request asked for one, and only
/// once the command reported completion while the job was not aborted.
pub proof fn law_verification_only_when_asked_after_completion(spec: ErasureEventSpec, p: RunPhase, ev: RunEvent)
    requires
        verifies_on(spec, p, ev),
    ensures
        spec.verify,
        p is Polling,
        ev matches RunEvent::Polled { outcome, reason } && outcome == PollOutcome::Completed,
{
}

/// An abort of the job wins over a running command: it is cancelled and
/// the attempt ends aborted, without another poll.
pub proof fn law_abort_cancels_the_command(spec: ErasureEventSpec, method: Method, acts: Seq<RunAction>)
    requires
        step_actions(spec, RunPhase::Running { method }, RunEvent::JobChecked(JobState::Aborted), acts),
    ensures
        acts[0] == RunAction::Cancel,
        acts[acts.len() - 1] == RunAction::Finish(Err(WipeError::Aborted)),
        !(acts.contains(RunAction::Poll)),
        next_phase(spec, RunPhase::Running { method }, RunEvent::JobChecked(JobState::Aborted)) is Done,
{
    assert(acts =~= seq![
        RunAction::Cancel,
        RunAction::EnterState(ErasureEventState::Aborted),
        RunAction::Finish(Err(WipeError::Aborted)),
    ]);
}

/// A completed command that starts a read-back asks for the number of
/// samples the request named, and at least one: never fewer than
/// requested, and exactly the request whenever it named any.
pub proof fn law_read_back_uses_the_requested_samples(spec: ErasureEventSpec, method: Method, reason: String, acts: Seq<RunAction>)
    requires
        spec.verify,
        step_actions(spec, RunPhase::Polling { method }, RunEvent::Polled { outcome: PollOutcome::Completed, reason }, acts),
    ensures
        acts.len() == 2,
        acts[1] matches RunAction::Verify { check, samples } && samples >= spec.verify_samples && samples >= 1
            && (spec.verify_samples >= 1 ==> samples == spec.verify_samples),
{
}

/// The read-back checks what the method leaves behind: randomness after a
/// crypto erase, an enhanced ATA Secure Erase or an Opal revert, the
/// written pattern after every other method.
pub proof fn law_read_back_suits_the_method(spec: ErasureEventSpec, method: Method, reason: String, acts: Seq<RunAction>)
    requires
        spec.verify,
        step_actions(spec, RunPhase::Polling { method }, RunEvent::Polled { outcome: PollOutcome::Completed, reason }, acts),
    ensures
        acts[1] matches RunAction::Verify { check, samples }
            && (check == VerificationMethod::SampledEntropy) == (method is NvmeSanitizeCryptoErase || method is OpalRevert
                || method == (Method::AtaSecureErase { enhanced: true }))
            && (check != VerificationMethod::SampledEntropy ==> check == VerificationMethod::SampledPattern),
{
}

/// Without a read-back requested, a completed command ends the attempt
/// successfully at once.
pub proof fn law_no_read_back_unless_requested(spec: ErasureEventSpec, method: Method, reason: String, acts: Seq<RunAction>)
    requires
        !spec.verify,
        step_actions(spec, RunPhase::Polling { method }, RunEvent::Polled { outcome: PollOutcome::Completed, reason }, acts),
    ensures
        acts.len() == 2,
        acts[0] == RunAction::EnterState(ErasureEventState::Completed),
        acts[1] matches RunAction::Finish(Ok(_)),
        !has_verify(acts),
{
    assert(!(acts[0] is Verify) && !(acts[1] is Verify));
}

/// A command the backend reports failed ends the attempt failed, with the
/// backend's own explanation, and starts no read-back.
pub proof fn law_failed_command_reports_the_backend_reason(spec: ErasureEventSpec, method: Method, reason: String, acts: Seq<RunAction>)
    requires
        step_actions(spec, RunPhase::Polling { method }, RunEvent::Polled { outcome: PollOutcome::Failed, reason }, acts),
    ensures
        acts.len() == 2,
        acts[0] == RunAction::EnterState(ErasureEventState::Failed),
        acts[1] matches RunAction::Finish(Err(WipeError::Backend(m))) && m == reason,
        next_phase(spec, RunPhase::Polling { method }, RunEvent::Polled { outcome: PollOutcome::Failed, reason }) is Done,
{
}

/// A device that is not attached ends the attempt at once, naming the
/// requested device.
pub proof fn law_missing_device_is_named(spec: ErasureEventSpec, acts: Seq<RunAction>)
    requires
        step_actions(spec, RunPhase::Lookup, RunEvent::NotFound, acts),
    ensures
        acts.len() == 1,
        acts[0] matches RunAction::Finish(Err(WipeError::DeviceNotFound(d))) && d@ == spec.device_id.0@,
        next_phase(spec, RunPhase::Lookup, RunEvent::NotFound) is Done,
{
}

/// A device found frozen just before issue is unfrozen first: the command
/// is only issued once the unfreeze is reported, and a device that is not
/// frozen gets its command at once.
pub proof fn law_frozen_device_is_unfrozen_before_issue(spec: ErasureEventSpec, method: Method, caps: Capabilities, acts: Seq<RunAction>)
    requires
        step_actions(spec, RunPhase::Reprobing { method }, RunEvent::LiveCapabilities(caps), acts),
    ensures
        (caps.ata_security matches Some(a) && a.frozen) ==> acts.last() == RunAction::Unfreeze && !has_issue(acts)
            && next_phase(spec, RunPhase::Reprobing { method }, RunEvent::LiveCapabilities(caps)) == (RunPhase::Unfreezing { method }),
        !(caps.ata_security matches Some(a) && a.frozen) ==> acts.last() == RunAction::Issue(method)
            && next_phase(spec, RunPhase::Reprobing { method }, RunEvent::LiveCapabilities(caps)) == (RunPhase::Issuing { method }),
{
    if caps.ata_security matches Some(a) && a.frozen {
        assert(!(acts[0] is Issue) && !(acts[1] is Issue) && !(acts[2] is Issue));
    }
}

proof fn lemma_issue_count(spec: ErasureEventSpec, p: RunPhase, evs: Seq<RunEvent>)
    ensures
        issue_count(spec, p, evs) <= (if before_issue(p) { 1nat } else { 0nat }),
    decreases evs.len(),
{
    if evs.len() > 0 {
        lemma_issue_count(spec, next_phase(spec, p, evs[0]), evs.drop_first());
    }
}

/// However the events fall, an attempt issues its erasure command at most
/// once.
pub proof fn law_command_issued_at_most_once(spec: ErasureEventSpec, evs: Seq<RunEvent>)
    ensures
        issue_count(spec, RunPhase::Lookup, evs) <= 1,
{
    lemma_issue_count(spec, RunPhase::Lookup, evs);
}

fn acts1(a: RunAction) -> (r: Vec<RunAction>)
    ensures
        r@ == seq![a],
{
    let mut v: Vec<RunAction> = Vec::new();
    v.push(a);
    v
}

fn acts2(a: RunAction, b: RunAction) -> (r: Vec<RunAction>)
    ensures
        r@ == seq![a, b],
{
    let mut v = acts1(a);
    v.push(b);
    v
}

fn acts3(a: RunAction, b: RunAction, c: RunAction) -> (r: Vec<RunAction>)
    ensures
        r@ == seq![a, b, c],
{
    let mut v = acts2(a, b);
    v.push(c);
    v
}

fn acts4(a: RunAction, b: RunAction, c: RunAction, d: RunAction) -> (r: Vec<RunAction>)
    ensures
        r@ == seq![a, b, c, d],
{
    let mut v = acts3(a, b, c);
    v.push(d);
    v
}

pub fn run_step(spec: &ErasureEventSpec, phase: RunPhase, event: RunEvent) -> (r: (RunPhase, Vec<RunAction>))
    ensures
        r.0 == next_phase(*spec, phase, event),
        step_actions(*spec, phase, event, r.1@),
{
    let ghost ev = event;
    if phase != RunPhase::Done {
        if let RunEvent::BackendFailed(e) = event {
            return (RunPhase::Done, acts1(RunAction::Finish(Err(e))));
        }
    }
    match (phase, event) {
        (RunPhase::Lookup, RunEvent::NotFound) => {
            (RunPhase::Done, acts1(RunAction::Finish(Err(WipeError::DeviceNotFound(spec.device_id.0.clone())))))
        },
        (RunPhase::Lookup, RunEvent::Found { media, caps }) => {
            match resolve_method(spec.method, &caps, media, spec.classification, spec.intent) {
                Some(m) => (RunPhase::Reprobing { method: m }, acts2(RunAction::Record { method: m }, RunAction::ReadCapabilities)),
                None => {
                    let t = String::from_str("no method resolved");
                    proof {
                        reveal_strlit("no method resolved");
                    }
                    (RunPhase::Done, acts1(RunAction::Finish(Err(WipeError::MethodUnsupported(t)))))
                },
            }
        },
        (RunPhase::Reprobing { method }, RunEvent::LiveCapabilities(c)) => {
            if needs_unfreeze(&c) {
                (RunPhase::Unfreezing { method }, acts3(RunAction::RecordCapabilities(c), RunAction::EnterState(ErasureEventState::Unfreezing), RunAction::Unfreeze))
            } else {
                (RunPhase::Issuing { method }, acts4(RunAction::RecordCapabilities(c), RunAction::EnterState(ErasureEventState::Confirming), RunAction::EnterState(ErasureEventState::Running), RunAction::Issue(method)))
            }
        },
        (RunPhase::Unfreezing { method }, RunEvent::Unfrozen) => {
            (RunPhase::Issuing { method }, acts3(RunAction::EnterState(ErasureEventState::Confirming), RunAction::EnterState(ErasureEventState::Running), RunAction::Issue(method)))
        },
        (RunPhase::Issuing { method }, RunEvent::Issued) => (RunPhase::Running { method }, acts1(RunAction::CheckJob)),
        (RunPhase::Running { method }, RunEvent::JobChecked(s)) => {
            if s == JobState::Aborted {
                (RunPhase::Done, acts3(RunAction::Cancel, RunAction::EnterState(ErasureEventState::Aborted), RunAction::Finish(Err(WipeError::Aborted))))
            } else {
                (RunPhase::Polling { method }, acts1(RunAction::Poll))
            }
        },
        (RunPhase::Polling { method }, RunEvent::Polled { outcome, reason }) => {
            match outcome {
                PollOutcome::InProgress => (RunPhase::Running { method }, acts1(RunAction::CheckJob)),
                PollOutcome::Failed => (RunPhase::Done, acts2(RunAction::EnterState(ErasureEventState::Failed), RunAction::Finish(Err(WipeError::Backend(reason))))),
                PollOutcome::Completed => {
                    if spec.verify {
                        (RunPhase::Verifying, acts2(RunAction::EnterState(ErasureEventState::Completed), RunAction::Verify {
                                check: pick_verification_method(&method),
                                samples: verify_sample_count(spec.verify_samples),
                            }))
                    } else {
                        (RunPhase::Done, acts2(RunAction::EnterState(ErasureEventState::Completed), RunAction::Finish(Ok(()))))
                    }
                },
            }
        },
        (RunPhase::Verifying, RunEvent::Verified { passed, all_passed }) => {
            let result = verification_outcome(passed.as_slice(), all_passed);
            (RunPhase::Done, acts2(RunAction::RecordVerification, RunAction::Finish(result)))
        },
        (p, _) => (p, Vec::new()),
    }
}

} // verus!
