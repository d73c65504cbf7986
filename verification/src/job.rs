//! Jobs and their lifecycle. A job processes one asset to a terminal
//! disposition (erased, destroyed, quarantined or aborted) through one or
//! more attempts; each attempt has its own inner state machine. The
//! decisions of the runner live here as pure transition functions: the
//! runner performs the work and feeds the outcome back.

use vstd::prelude::*;

use crate::device::{Capabilities, MediaType};
use crate::error::WipeError;
use crate::method::{Classification, Intent, Method, select_method, spec_select_method};
use crate::text::{append_str, decimal, decimal_string};

verus! {

/// Operator identity captured on certificates.
#[derive(Debug, PartialEq, Eq)]
pub struct OperatorRef {
    pub id: String,
    pub display_name: String,
    pub email: String,
}

impl Clone for OperatorRef {
    fn clone(&self) -> (r: Self)
        ensures
            r == *self,
    {
        OperatorRef { id: self.id.clone(), display_name: self.display_name.clone(), email: self.email.clone() }
    }
}

/// The outer job state: the asset's disposition, not any one attempt's
/// progress. `PendingCoSign` waits for a supervisor on the destroy path.
#[derive(Debug, Clone, Copy, PartialEq, Eq, Structural)]
pub enum JobState {
    Queued,
    InProgress,
    PendingCoSign,
    Erased,
    Destroyed,
    Quarantined,
    Aborted,
}

/// The asset's resolved disposition, recorded on the certificate.
#[derive(Debug, Clone, Copy, PartialEq, Eq, Structural)]
pub enum AssetDisposition {
    Erased,
    Destroyed,
    Quarantined,
}

/// States a job never leaves.
pub open spec fn terminal(s: JobState) -> bool {
    s is Erased || s is Destroyed || s is Quarantined || s is Aborted
}

/// The disposition a state records, if it records one.
pub open spec fn disposition_of(s: JobState) -> Option<AssetDisposition> {
    match s {
        JobState::Erased => Some(AssetDisposition::Erased),
        JobState::Destroyed => Some(AssetDisposition::Destroyed),
        JobState::Quarantined => Some(AssetDisposition::Quarantined),
        _ => None,
    }
}

impl JobState {
    pub fn is_terminal(self) -> (r: bool)
        ensures
            r == terminal(self),
    {
        match self {
            JobState::Erased | JobState::Destroyed | JobState::Quarantined | JobState::Aborted => true,
            _ => false,
        }
    }

    pub fn disposition(self) -> (r: Option<AssetDisposition>)
        ensures
            r == disposition_of(self),
    {
        match self {
            JobState::Erased => Some(AssetDisposition::Erased),
            JobState::Destroyed => Some(AssetDisposition::Destroyed),
            JobState::Quarantined => Some(AssetDisposition::Quarantined),
            _ => None,
        }
    }
}

/// State of a destruction manifest awaiting supervisor co-sign.
#[derive(Debug, Clone, Copy, PartialEq, Eq, Structural)]
pub enum ManifestState {
    Pending,
    Signed,
    Rejected,
}

/// Severity of a pre-flight diagnostic finding.
#[derive(Debug, Clone, Copy, PartialEq, Eq, Structural)]
pub enum DiagnosticSeverity {
    Info,
    Warning,
    Critical,
}

/// One pre-flight diagnostic finding.
#[derive(Debug, PartialEq, Eq)]
pub struct DiagnosticFinding {
    pub code: String,
    pub severity: DiagnosticSeverity,
    pub message: String,
}

impl Clone for DiagnosticFinding {
    fn clone(&self) -> (r: Self)
        ensures
            r == *self,
    {
        DiagnosticFinding { code: self.code.clone(), severity: self.severity, message: self.message.clone() }
    }
}

/// How an erased device is read back.
#[derive(Debug, Clone, Copy, PartialEq, Eq, Structural)]
pub enum VerificationMethod {
    /// Sampled regions checked against the expected pattern.
    SampledPattern,
    /// Sampled regions checked for crypto-erase randomness.
    SampledEntropy,
    /// Full surface read-back.
    FullReadback,
}

/// The inner state machine of one wipe attempt.
#[derive(Debug, Clone, Copy, PartialEq, Eq, Structural)]
pub enum ErasureEventState {
    Queued,
    Probing,
    Unfreezing,
    Confirming,
    Running,
    Completed,
    Failed,
    Aborted,
}

/// Attempt states that are final.
pub open spec fn attempt_terminal(s: ErasureEventState) -> bool {
    s is Completed || s is Failed || s is Aborted
}

impl ErasureEventState {
    pub fn is_terminal(self) -> (r: bool)
        ensures
            r == attempt_terminal(self),
    {
        match self {
            ErasureEventState::Completed | ErasureEventState::Failed | ErasureEventState::Aborted => true,
            _ => false,
        }
    }
}

/// What happens to a job.
#[derive(Debug, Clone, Copy, PartialEq, Eq, Structural)]
pub enum JobCommand {
    /// The operator starts a queued job.
    Start,
    /// The operator aborts.
    Abort,
    /// Erasure is exhausted and the asset is destroyed; awaits co-sign.
    EscalateToDestroy,
    /// The supervisor co-signed the manifest.
    MarkDestroyed,
    /// The attempt and its verification succeeded.
    ErasureSucceeded,
    /// The attempt or its verification failed.
    ErasureFailed,
}

/// Why a command is refused.
#[derive(Debug, Clone, Copy, PartialEq, Eq, Structural)]
pub enum TransitionError {
    /// Only a queued job can start.
    NotQueued(JobState),
    /// A terminal job cannot be escalated.
    AlreadyTerminal(JobState),
    /// Only a job awaiting co-sign can be marked destroyed.
    NotPendingCoSign(JobState),
}

/// The job lifecycle: `Ok(Some(s))` moves to `s`, `Ok(None)` leaves the
/// job where it is, `Err` refuses the command.
pub open spec fn spec_transition(s: JobState, c: JobCommand) -> Result<Option<JobState>, TransitionError> {
    match c {
        JobCommand::Start => if s is Queued {
            Ok(Some(JobState::InProgress))
        } else {
            Err(TransitionError::NotQueued(s))
        },
        JobCommand::Abort => if terminal(s) {
            Ok(None)
        } else {
            Ok(Some(JobState::Aborted))
        },
        JobCommand::EscalateToDestroy => if terminal(s) {
            Err(TransitionError::AlreadyTerminal(s))
        } else {
            Ok(Some(JobState::PendingCoSign))
        },
        JobCommand::MarkDestroyed => if s is PendingCoSign {
            Ok(Some(JobState::Destroyed))
        } else {
            Err(TransitionError::NotPendingCoSign(s))
        },
        JobCommand::ErasureSucceeded => if s is InProgress {
            Ok(Some(JobState::Erased))
        } else {
            Ok(None)
        },
        JobCommand::ErasureFailed => Ok(None),
    }
}

/// Decide what a command does to a job in state `s`. A successful erasure
/// only completes a job still in progress: an abort or escalation made
/// while the attempt ran takes precedence. A failed attempt leaves the job
/// in progress for the operator to retry, escalate or abort.
pub fn transition(s: JobState, c: JobCommand) -> (r: Result<Option<JobState>, TransitionError>)
    ensures
        r == spec_transition(s, c),
{
    match c {
        JobCommand::Start => if s == JobState::Queued {
            Ok(Some(JobState::InProgress))
        } else {
            Err(TransitionError::NotQueued(s))
        },
        JobCommand::Abort => if s.is_terminal() {
            Ok(None)
        } else {
            Ok(Some(JobState::Aborted))
        },
        JobCommand::EscalateToDestroy => if s.is_terminal() {
            Err(TransitionError::AlreadyTerminal(s))
        } else {
            Ok(Some(JobState::PendingCoSign))
        },
        JobCommand::MarkDestroyed => if s == JobState::PendingCoSign {
            Ok(Some(JobState::Destroyed))
        } else {
            Err(TransitionError::NotPendingCoSign(s))
        },
        JobCommand::ErasureSucceeded => if s == JobState::InProgress {
            Ok(Some(JobState::Erased))
        } else {
            Ok(None)
        },
        JobCommand::ErasureFailed => Ok(None),
    }
}

/// The state after a command: unchanged when refused or a no-op.
pub open spec fn after(s: JobState, c: JobCommand) -> JobState {
    match spec_transition(s, c) {
        Ok(Some(t)) => t,
        _ => s,
    }
}

/// Terminal states absorb every command: nothing moves a finished job.
pub proof fn law_terminal_states_are_final(s: JobState, c: JobCommand)
    requires
        terminal(s),
    ensures
        after(s, c) == s,
{
}

/// Aborting a job that is not finished always lands it in `Aborted`, and
/// aborting a finished job is a harmless no-op.
pub proof fn law_abort_always_stops(s: JobState)
    ensures
        terminal(after(s, JobCommand::Abort)),
        !terminal(s) ==> after(s, JobCommand::Abort) == JobState::Aborted,
        spec_transition(s, JobCommand::Abort) is Ok,
{
}

/// A job is only ever marked erased from `InProgress`, and only ever
/// destroyed from `PendingCoSign`, which only escalation reaches.
pub proof fn law_dispositions_have_one_entry(s: JobState, c: JobCommand)
    requires
        s != after(s, c),
    ensures
        after(s, c) == JobState::Erased ==> s == JobState::InProgress && c == JobCommand::ErasureSucceeded,
        after(s, c) == JobState::Destroyed ==> s == JobState::PendingCoSign && c == JobCommand::MarkDestroyed,
        after(s, c) == JobState::PendingCoSign ==> c == JobCommand::EscalateToDestroy,
{
}

/// A failed attempt never changes the job: the operator decides.
pub proof fn law_failure_awaits_the_operator(s: JobState)
    ensures
        after(s, JobCommand::ErasureFailed) == s,
{
}

/// Exactly the terminal states other than `Aborted` record a disposition.
pub proof fn law_disposition_iff_terminal_not_aborted(s: JobState)
    ensures
        (disposition_of(s) is Some) == (terminal(s) && s != JobState::Aborted),
{
}

/// Escalation reaches every unfinished job: a queued, running or
/// co-sign-pending job moves to `PendingCoSign`, and only a finished one
/// (erased, destroyed, quarantined, aborted) refuses.
pub proof fn law_any_unfinished_job_can_be_escalated(s: JobState)
    ensures
        (s is Queued || s is InProgress || s is PendingCoSign)
            ==> spec_transition(s, JobCommand::EscalateToDestroy) == Ok::<Option<JobState>, TransitionError>(Some(JobState::PendingCoSign)),
        (s is Erased || s is Destroyed || s is Quarantined || s is Aborted)
            ==> spec_transition(s, JobCommand::EscalateToDestroy) == Err::<Option<JobState>, TransitionError>(TransitionError::AlreadyTerminal(s)),
{
}

/// What each command does, state by state: only a queued job starts (into
/// `InProgress`); an abort stops every unfinished job and leaves a finished
/// one alone; only a job awaiting co-sign is marked destroyed; a successful
/// erasure completes only a running job; a failed one changes nothing.
pub proof fn law_lifecycle_commands(s: JobState)
    ensures
        s is Queued ==> spec_transition(s, JobCommand::Start) == Ok::<Option<JobState>, TransitionError>(Some(JobState::InProgress)),
        !(s is Queued) ==> spec_transition(s, JobCommand::Start) == Err::<Option<JobState>, TransitionError>(TransitionError::NotQueued(s)),
        (s is Queued || s is InProgress || s is PendingCoSign)
            ==> spec_transition(s, JobCommand::Abort) == Ok::<Option<JobState>, TransitionError>(Some(JobState::Aborted)),
        (s is Erased || s is Destroyed || s is Quarantined || s is Aborted)
            ==> spec_transition(s, JobCommand::Abort) == Ok::<Option<JobState>, TransitionError>(None),
        s is PendingCoSign ==> spec_transition(s, JobCommand::MarkDestroyed) == Ok::<Option<JobState>, TransitionError>(Some(JobState::Destroyed)),
        !(s is PendingCoSign) ==> spec_transition(s, JobCommand::MarkDestroyed) == Err::<Option<JobState>, TransitionError>(TransitionError::NotPendingCoSign(s)),
        s is InProgress ==> spec_transition(s, JobCommand::ErasureSucceeded) == Ok::<Option<JobState>, TransitionError>(Some(JobState::Erased)),
        !(s is InProgress) ==> spec_transition(s, JobCommand::ErasureSucceeded) == Ok::<Option<JobState>, TransitionError>(None),
        spec_transition(s, JobCommand::ErasureFailed) == Ok::<Option<JobState>, TransitionError>(None),
{
}

/// The verification that suits what a method leaves behind: randomness
/// after a crypto or enhanced erase or an Opal revert, the written pattern
/// otherwise.
pub open spec fn verification_for(m: Method) -> VerificationMethod {
    match m {
        Method::NvmeSanitizeCryptoErase { .. } => VerificationMethod::SampledEntropy,
        Method::AtaSecureErase { enhanced } => if enhanced {
            VerificationMethod::SampledEntropy
        } else {
            VerificationMethod::SampledPattern
        },
        Method::OpalRevert => VerificationMethod::SampledEntropy,
        _ => VerificationMethod::SampledPattern,
    }
}

/// Pick the read-back check for a method.
pub fn pick_verification_method(method: &Method) -> (r: VerificationMethod)
    ensures
        r == verification_for(*method),
{
    match method {
        Method::NvmeSanitizeCryptoErase { .. } => VerificationMethod::SampledEntropy,
        Method::AtaSecureErase { enhanced } => if *enhanced {
            VerificationMethod::SampledEntropy
        } else {
            VerificationMethod::SampledPattern
        },
        Method::BlockOverwrite { .. } | Method::NvmeSanitizeOverwrite { .. } => VerificationMethod::SampledPattern,
        Method::NvmeSanitizeBlockErase { .. } => VerificationMethod::SampledPattern,
        Method::OpalRevert => VerificationMethod::SampledEntropy,
        Method::Destroy { .. } => VerificationMethod::SampledPattern,
    }
}

/// The method an attempt uses: the operator's pin, else automatic
/// selection.
pub fn resolve_method(
    pinned: Option<Method>,
    caps: &Capabilities,
    media: MediaType,
    classification: Classification,
    intent: Intent,
) -> (r: Option<Method>)
    ensures
        r == match pinned {
            Some(m) => Some(m),
            None => spec_select_method(*caps, media, classification, intent),
        },
{
    match pinned {
        Some(m) => Some(m),
        None => select_method(caps, media, classification, intent),
    }
}

/// A device frozen by ATA security must be unfrozen before erasing.
pub open spec fn spec_needs_unfreeze(caps: Capabilities) -> bool {
    match caps.ata_security {
        Some(s) => s.frozen,
        None => false,
    }
}

/// The states an attempt walks through before its command is issued.
pub open spec fn spec_prelude(needs_unfreeze: bool) -> Seq<ErasureEventState> {
    if needs_unfreeze {
        seq![ErasureEventState::Probing, ErasureEventState::Unfreezing, ErasureEventState::Confirming, ErasureEventState::Running]
    } else {
        seq![ErasureEventState::Probing, ErasureEventState::Confirming, ErasureEventState::Running]
    }
}

/// Does this device need unfreezing first?
pub fn needs_unfreeze(caps: &Capabilities) -> (r: bool)
    ensures
        r == spec_needs_unfreeze(*caps),
{
    match &caps.ata_security {
        Some(s) => s.frozen,
        None => false,
    }
}

/// The inner states an attempt passes through before the command is issued.
pub fn attempt_prelude(caps: &Capabilities) -> (r: Vec<ErasureEventState>)
    ensures
        r@ == spec_prelude(spec_needs_unfreeze(*caps)),
{
    let mut v: Vec<ErasureEventState> = Vec::new();
    v.push(ErasureEventState::Probing);
    if needs_unfreeze(caps) {
        v.push(ErasureEventState::Unfreezing);
    }
    v.push(ErasureEventState::Confirming);
    v.push(ErasureEventState::Running);
    proof {
        assert(v@ =~= spec_prelude(spec_needs_unfreeze(*caps)));
    }
    v
}

/// What one poll of a running command reported.
#[derive(Debug, Clone, Copy, PartialEq, Eq, Structural)]
pub enum PollOutcome {
    InProgress,
    Completed,
    Failed,
}

/// What the runner does next while an attempt runs.
#[derive(Debug, Clone, Copy, PartialEq, Eq, Structural)]
pub enum AttemptStep {
    /// The job was aborted: cancel the command; the attempt ends aborted.
    Cancel,
    /// Keep polling.
    KeepPolling,
    /// The attempt ends in this state.
    Finish(ErasureEventState),
}

/// One step of the polling loop: an abort of the outer job wins over
/// whatever the device reported.
pub open spec fn spec_attempt_step(outer: JobState, polled: PollOutcome) -> AttemptStep {
    if outer is Aborted {
        AttemptStep::Cancel
    } else {
        match polled {
            PollOutcome::InProgress => AttemptStep::KeepPolling,
            PollOutcome::Completed => AttemptStep::Finish(ErasureEventState::Completed),
            PollOutcome::Failed => AttemptStep::Finish(ErasureEventState::Failed),
        }
    }
}

/// Decide the next step of a running attempt.
pub fn attempt_step(outer: JobState, polled: PollOutcome) -> (r: AttemptStep)
    ensures
        r == spec_attempt_step(outer, polled),
{
    if outer == JobState::Aborted {
        AttemptStep::Cancel
    } else {
        match polled {
            PollOutcome::InProgress => AttemptStep::KeepPolling,
            PollOutcome::Completed => AttemptStep::Finish(ErasureEventState::Completed),
            PollOutcome::Failed => AttemptStep::Finish(ErasureEventState::Failed),
        }
    }
}

/// Verification reads at least one sample.
pub fn verify_sample_count(requested: u32) -> (r: u32)
    ensures
        r == if requested >= 1 { requested } else { 1 },
{
    if requested >= 1 { requested } else { 1 }
}

/// Entering these states produces a certificate: `Erased` signs at once,
/// `PendingCoSign` signs and waits for the supervisor's co-signature.
pub fn needs_certificate(s: JobState) -> (r: bool)
    ensures
        r == (s is Erased || s is PendingCoSign),
{
    match s {
        JobState::Erased | JobState::PendingCoSign => true,
        _ => false,
    }
}

/// Number of `false` entries among the first `k`.
pub open spec fn failures_upto(passed: Seq<bool>, k: int) -> nat
    decreases k,
{
    if k <= 0 {
        0
    } else {
        failures_upto(passed, k - 1) + if passed[k - 1] { 0nat } else { 1nat }
    }
}

/// The outcome of a read-back: an attempt whose report does not pass fails
/// with the count of failed samples.
pub fn verification_outcome(passed: &[bool], all_passed: bool) -> (r: Result<(), WipeError>)
    ensures
        all_passed ==> r is Ok,
        !all_passed ==> (r matches Err(WipeError::VerificationFailed(m))
            && m@ == decimal(failures_upto(passed@, passed@.len() as int)) + " of "@ + decimal(passed@.len() as nat) + " samples failed"@),
{
    if all_passed {
        return Ok(());
    }
    let mut failed: u64 = 0;
    for i in 0..passed.len()
        invariant
            failed == failures_upto(passed@, i as int),
            failed <= i,
    {
        if !passed[i] {
            failed = failed + 1;
        }
    }
    let mut m = decimal_string(failed);
    append_str(&mut m, " of ");
    let n = decimal_string(passed.len() as u64);
    append_str(&mut m, n.as_str());
    append_str(&mut m, " samples failed");
    Err(WipeError::VerificationFailed(m))
}

} // verus!
