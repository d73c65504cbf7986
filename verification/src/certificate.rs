//! Jobs as their certificate reads them, and the parts of a sanitization
//! certificate computed from a job: whether a certificate is owed at all,
//! its disposition, its duration and its headline sanitization block.
//! Instants are nanoseconds since the Unix epoch.

use vstd::prelude::*;

use crate::device::{Capabilities, Device, DeviceId, clone_opt_string};
use crate::job::{AssetDisposition, DiagnosticFinding, ErasureEventState, JobState, OperatorRef, VerificationMethod, disposition_of};
use crate::license::{NANOS_PER_SECOND, representable};
use crate::method::{Category, Classification, DestructMethod, Intent, Method, category_of, human_name_of};
use crate::mock::{CommandEvidence, EvidenceV};
use crate::cert::{CertError, Finding, SignatureBlock, SigningKey, VerifyingKey, block_of, failure_matches, key_id_of, keys_view, sign_canonical, spec_check, verify_canonical, verify_outcome, verify_result_ok};
use crate::crypto::ed_public_of;
use crate::license_chain::AttestationChain;
use crate::text::append_str;

verus! {

/// JSON-LD context every certificate names.
pub const CONTEXT_URI: &'static str = "https://wipestation.dev/contexts/sanitization-cert-v2";

/// Version of the certificate layout.
pub const CERT_FORMAT_VERSION: u32 = 2;

/// The tool that issued a certificate.
#[derive(Debug, PartialEq, Eq)]
pub struct CertIssuer {
    pub tool_name: String,
    pub tool_version: String,
    pub public_key_id: String,
}

/// The request a certificate answers, as recorded on it.
#[derive(Debug, PartialEq, Eq)]
pub struct CertSpecRef {
    pub classification: Classification,
    pub intent: Intent,
    pub asset_tag: Option<String>,
    pub ticket_ref: Option<String>,
    pub site_label: Option<String>,
    pub customer_ref: Option<String>,
    pub work_order_ref: Option<String>,
    pub contract_ref: Option<String>,
}

/// A standard a sanitization is mapped against.
#[derive(Debug, PartialEq, Eq)]
pub struct StandardRef {
    pub standard: String,
    pub section: String,
}

/// The auditor-readable headline of how an asset was sanitized.
#[derive(Debug, PartialEq, Eq)]
pub struct SanitizationBlock {
    pub category: Category,
    pub method: Method,
    pub method_human: String,
    pub standard_refs: Vec<StandardRef>,
}

/// The physical state of the media after processing.
#[derive(Debug, PartialEq, Eq)]
pub struct MediaStatus {
    pub operational: bool,
    pub damaged: bool,
    pub notes: Option<String>,
}

/// What was asked for when a job was created.
#[derive(Debug, PartialEq, Eq)]
pub struct JobSpec {
    /// The asset's primary device.
    pub device_id: DeviceId,
    pub classification: Classification,
    pub intent: Intent,
    pub operator: OperatorRef,
    pub asset_tag: Option<String>,
    pub site_label: Option<String>,
    pub ticket_ref: Option<String>,
    pub work_order_ref: Option<String>,
    pub customer_ref: Option<String>,
    pub contract_ref: Option<String>,
    pub sanitization_profile_ref: Option<String>,
}

/// What was asked for when one erasure attempt started.
#[derive(Debug, PartialEq, Eq)]
pub struct ErasureEventSpec {
    pub device_id: DeviceId,
    pub classification: Classification,
    pub intent: Intent,
    /// A method the operator pinned; `None` selects automatically.
    pub method: Option<Method>,
    pub verify: bool,
    pub verify_samples: u32,
    pub operator: OperatorRef,
    pub asset_tag: Option<String>,
    pub site_label: Option<String>,
    pub ticket_ref: Option<String>,
}

/// Samples a first erasure attempt verifies.
pub const FIRST_ATTEMPT_VERIFY_SAMPLES: u32 = 8;

impl ErasureEventSpec {
    /// The first erasure attempt of a job: its device, classification,
    /// intent, operator and references, with the method selected
    /// automatically and a verified read-back of eight samples.
    pub fn for_job(spec: &JobSpec) -> (r: ErasureEventSpec)
        ensures
            r.device_id == spec.device_id,
            r.classification == spec.classification,
            r.intent == spec.intent,
            r.method is None,
            r.verify,
            r.verify_samples == FIRST_ATTEMPT_VERIFY_SAMPLES,
            r.operator == spec.operator,
            r.asset_tag == spec.asset_tag,
            r.site_label == spec.site_label,
            r.ticket_ref == spec.ticket_ref,
    {
        ErasureEventSpec {
            device_id: spec.device_id.clone(),
            classification: spec.classification,
            intent: spec.intent,
            method: None,
            verify: true,
            verify_samples: FIRST_ATTEMPT_VERIFY_SAMPLES,
            operator: spec.operator.clone(),
            asset_tag: clone_opt_string(&spec.asset_tag),
            site_label: clone_opt_string(&spec.site_label),
            ticket_ref: clone_opt_string(&spec.ticket_ref),
        }
    }
}

/// One update an erasure attempt logged. A progress tick records only that
/// it happened (its completed fraction is a floating-point measurement).
#[derive(Debug, PartialEq, Eq)]
pub enum UpdateSummary {
    StateChanged { from: ErasureEventState, to: ErasureEventState },
    Progress,
    CommandIssued(CommandEvidence),
    CommandResult(CommandEvidence),
    Warning { code: String, message: String },
    Failed { reason: String },
}

/// One erasure attempt as its certificate records it. Its live progress
/// (a floating-point fraction) is not kept.
#[derive(Debug, PartialEq, Eq)]
pub struct ErasureSummary {
    pub id: String,
    pub device_snapshot: Device,
    pub capabilities_snapshot: Capabilities,
    pub spec: ErasureEventSpec,
    pub resolved_method: Option<Method>,
    pub state: ErasureEventState,
    /// The attempt's update log, in order.
    pub events: Vec<UpdateSummary>,
    pub created_at: i128,
    pub started_at: Option<i128>,
    pub ended_at: Option<i128>,
    pub station_id: Option<String>,
}

/// A pre-flight diagnostic run.
#[derive(Debug, PartialEq, Eq)]
pub struct DiagnosticRecord {
    pub id: String,
    pub device_id: DeviceId,
    pub at: i128,
    pub findings: Vec<DiagnosticFinding>,
    pub station_id: Option<String>,
}

/// A health snapshot; the raw attributes the device reported are kept as
/// their JSON text.
#[derive(Debug, PartialEq, Eq)]
pub struct HealthCheckRecord {
    pub id: String,
    pub device_id: DeviceId,
    pub at: i128,
    pub attributes_json: String,
    pub station_id: Option<String>,
}

/// One sampled region of a read-back. Its measured entropy is a
/// floating-point value and is not kept; whether it passed is.
#[derive(Debug, PartialEq, Eq)]
pub struct SampleRecord {
    pub offset_bytes: u64,
    pub size_bytes: u32,
    pub sha256_hex: String,
    pub passed: bool,
}

/// A read-back report.
#[derive(Debug, PartialEq, Eq)]
pub struct ReportRecord {
    pub method: VerificationMethod,
    pub sample_count: u32,
    pub bytes_sampled: u64,
    pub samples: Vec<SampleRecord>,
    pub all_passed: bool,
}

/// The read-back that followed an erasure attempt.
#[derive(Debug, PartialEq, Eq)]
pub struct VerificationRecord {
    pub id: String,
    /// The attempt this read-back checked.
    pub erasure_event_id: String,
    pub device_id: DeviceId,
    pub at: i128,
    pub report: ReportRecord,
    pub station_id: Option<String>,
}

/// The chain-of-custody record of a physical destruction.
#[derive(Debug, PartialEq, Eq)]
pub struct DestructionRecord {
    pub id: String,
    pub device_id: DeviceId,
    pub at: i128,
    pub method: DestructMethod,
    /// Operator who physically processed the destruction.
    pub operator: OperatorRef,
    /// A supervisor who co-signed in line, if one did.
    pub supervisor: Option<OperatorRef>,
    /// The manifest this destruction was rolled into, if any.
    pub manifest_ref: Option<String>,
    pub photo_refs: Vec<String>,
    pub notes: Option<String>,
    pub station_id: Option<String>,
}

/// One activity of a job, in the job's evidence chain.
#[derive(Debug, PartialEq, Eq)]
pub enum ActivitySummary {
    Diagnostic(DiagnosticRecord),
    HealthCheck(HealthCheckRecord),
    Erasure(ErasureSummary),
    Verification(VerificationRecord),
    Destruction(DestructionRecord),
}

/// What a certificate reads of a job.
#[derive(Debug, PartialEq, Eq)]
pub struct JobSummary {
    /// The job's identifier.
    pub id: String,
    pub state: JobState,
    pub spec: JobSpec,
    /// The job's activities in event order.
    pub activities: Vec<ActivitySummary>,
    pub started_at: Option<i128>,
    pub ended_at: Option<i128>,
}

/// Index of the last erasure among the first `k` activities.
pub open spec fn last_erasure_upto(acts: Seq<ActivitySummary>, k: int) -> Option<int>
    decreases k,
{
    if k <= 0 {
        None
    } else if acts[k - 1] is Erasure {
        Some(k - 1)
    } else {
        last_erasure_upto(acts, k - 1)
    }
}

/// Index of the job's most recent erasure attempt.
pub open spec fn last_erasure(acts: Seq<ActivitySummary>) -> Option<int> {
    last_erasure_upto(acts, acts.len() as int)
}

proof fn lemma_last_erasure_upto(acts: Seq<ActivitySummary>, k: int)
    requires
        0 <= k <= acts.len(),
    ensures
        last_erasure_upto(acts, k) matches Some(i) ==> 0 <= i < k && acts[i] is Erasure
            && forall|j: int| i < j < k ==> !(acts[j] is Erasure),
        last_erasure_upto(acts, k) is None ==> forall|j: int| 0 <= j < k ==> !(acts[j] is Erasure),
    decreases k,
{
    if k > 0 {
        lemma_last_erasure_upto(acts, k - 1);
    }
}

impl JobSummary {
    /// The most recent erasure attempt, if any.
    pub fn latest_erasure(&self) -> (r: Option<&ErasureSummary>)
        ensures
            match last_erasure(self.activities@) {
                Some(i) => r matches Some(e) && self.activities@[i] == ActivitySummary::Erasure(*e),
                None => r is None,
            },
    {
        let mut k: usize = self.activities.len();
        while k > 0
            invariant
                k <= self.activities@.len(),
                last_erasure(self.activities@) == last_erasure_upto(self.activities@, k as int),
            decreases k,
        {
            match &self.activities[k - 1] {
                ActivitySummary::Erasure(e) => {
                    return Some(e);
                },
                _ => {},
            }
            k = k - 1;
        }
        None
    }
}

/// Whole seconds between two instants, never negative.
pub open spec fn whole_seconds_between(started: i128, ended: i128) -> int {
    if ended > started {
        (ended - started) / (NANOS_PER_SECOND as int)
    } else {
        0
    }
}

/// The standards every certificate maps its sanitization against.
pub open spec fn standard_refs_spec() -> Seq<(Seq<char>, Seq<char>)> {
    seq![
        ("NIST SP 800-88 Rev. 2"@, "decision flow + IEEE 2883 deferral"@),
        ("IEEE 2883-2022"@, "Clear / Purge / Destruct mappings"@),
    ]
}

pub open spec fn refs_view(rs: Seq<StandardRef>) -> Seq<(Seq<char>, Seq<char>)> {
    rs.map_values(|r: StandardRef| (r.standard@, r.section@))
}

/// The part of a certificate computed from a job.
#[derive(Debug, PartialEq, Eq)]
pub struct CertificateHeadline {
    pub operator: OperatorRef,
    pub spec: CertSpecRef,
    /// The device of the attempt the certificate summarises.
    pub device: Device,
    pub capabilities_snapshot: Capabilities,
    pub disposition: AssetDisposition,
    pub sanitization: SanitizationBlock,
    pub started_at: i128,
    pub ended_at: i128,
    pub duration_seconds: u64,
}

/// A certificate is owed for a job in `state`, started and ended at the
/// given instants, whose most recent attempt is `latest`, when the state
/// has a disposition, both instants are known, and the attempt resolved a
/// method.
pub open spec fn owed(state: JobState, started_at: Option<i128>, ended_at: Option<i128>, latest: Option<ErasureSummary>) -> bool {
    &&& disposition_of(state) is Some
    &&& started_at is Some
    &&& ended_at is Some
    &&& latest matches Some(e) && e.resolved_method is Some
}

/// The most recent erasure attempt of a job, if any.
pub open spec fn latest_of(job: JobSummary) -> Option<ErasureSummary> {
    match last_erasure(job.activities@) {
        Some(i) => match job.activities@[i] {
            ActivitySummary::Erasure(e) => Some(e),
            _ => None,
        },
        None => None,
    }
}

/// A certificate is owed for a job as it stands.
pub open spec fn headline_owed(job: JobSummary) -> bool {
    owed(job.state, job.started_at, job.ended_at, latest_of(job))
}

/// The spec reference a certificate records for a job's request.
pub open spec fn spec_ref_of(s: JobSpec, r: CertSpecRef) -> bool {
    &&& r.classification == s.classification
    &&& r.intent == s.intent
    &&& r.asset_tag == s.asset_tag
    &&& r.ticket_ref == s.ticket_ref
    &&& r.site_label == s.site_label
    &&& r.customer_ref == s.customer_ref
    &&& r.work_order_ref == s.work_order_ref
    &&& r.contract_ref == s.contract_ref
}

/// `h` is the headline for a job with request `spec`, in `state`, between
/// the given instants, whose most recent attempt is `e`.
pub open spec fn headline_from(spec: JobSpec, state: JobState, started_at: Option<i128>, ended_at: Option<i128>, e: ErasureSummary, h: CertificateHeadline) -> bool {
    &&& h.operator == spec.operator
    &&& spec_ref_of(spec, h.spec)
    &&& h.device == e.device_snapshot
    &&& h.capabilities_snapshot == e.capabilities_snapshot
    &&& Some(h.disposition) == disposition_of(state)
    &&& Some(h.sanitization.method) == e.resolved_method
    &&& h.sanitization.category == category_of(h.sanitization.method)
    &&& h.sanitization.method_human@ == human_name_of(h.sanitization.method)
    &&& refs_view(h.sanitization.standard_refs@) == standard_refs_spec()
    &&& Some(h.started_at) == started_at
    &&& Some(h.ended_at) == ended_at
    &&& h.duration_seconds == whole_seconds_between(h.started_at, h.ended_at)
}

/// `h` is the headline of `job` as it stands, whose most recent attempt is `e`.
pub open spec fn headline_of(job: JobSummary, e: ErasureSummary, h: CertificateHeadline) -> bool {
    headline_from(job.spec, job.state, job.started_at, job.ended_at, e, h)
}

fn standard_refs() -> (r: Vec<StandardRef>)
    ensures
        refs_view(r@) == standard_refs_spec(),
{
    let mut v: Vec<StandardRef> = Vec::new();
    v.push(StandardRef {
        standard: String::from_str("NIST SP 800-88 Rev. 2"),
        section: String::from_str("decision flow + IEEE 2883 deferral"),
    });
    v.push(StandardRef {
        standard: String::from_str("IEEE 2883-2022"),
        section: String::from_str("Clear / Purge / Destruct mappings"),
    });
    assert(refs_view(v@) =~= standard_refs_spec());
    v
}

fn duration_seconds(started: i128, ended: i128) -> (r: u64)
    requires
        representable(started as int),
        representable(ended as int),
    ensures
        r == whole_seconds_between(started, ended),
{
    if ended > started {
        let d: i128 = (ended - started) / NANOS_PER_SECOND;
        d as u64
    } else {
        0
    }
}

impl CertificateHeadline {
    /// The headline for a job with request `spec`, in `state`, between the
    /// given instants, whose most recent attempt is `latest`; `None` when
    /// no certificate is meaningful.
    pub fn from_parts(
        spec: &JobSpec,
        state: JobState,
        started_at: Option<i128>,
        ended_at: Option<i128>,
        latest: Option<&ErasureSummary>,
    ) -> (r: Option<CertificateHeadline>)
        requires
            started_at matches Some(s) ==> representable(s as int),
            ended_at matches Some(e) ==> representable(e as int),
        ensures
            r is Some <==> owed(state, started_at, ended_at, match latest {
                Some(e) => Some(*e),
                None => None,
            }),
            r matches Some(h) ==> (latest matches Some(e) && headline_from(*spec, state, started_at, ended_at, *e, h)),
    {
        let disposition = match state.disposition() {
            Some(d) => d,
            None => {
                return None;
            },
        };
        let started = match started_at {
            Some(s) => s,
            None => {
                return None;
            },
        };
        let ended = match ended_at {
            Some(e) => e,
            None => {
                return None;
            },
        };
        let summary = match latest {
            Some(e) => e,
            None => {
                return None;
            },
        };
        let method = match summary.resolved_method {
            Some(m) => m,
            None => {
                return None;
            },
        };
        let cert_spec = CertSpecRef {
            classification: spec.classification,
            intent: spec.intent,
            asset_tag: clone_opt_string(&spec.asset_tag),
            ticket_ref: clone_opt_string(&spec.ticket_ref),
            site_label: clone_opt_string(&spec.site_label),
            customer_ref: clone_opt_string(&spec.customer_ref),
            work_order_ref: clone_opt_string(&spec.work_order_ref),
            contract_ref: clone_opt_string(&spec.contract_ref),
        };
        let sanitization = SanitizationBlock {
            category: method.category(),
            method,
            method_human: String::from_str(method.human_name()),
            standard_refs: standard_refs(),
        };
        Some(CertificateHeadline {
            operator: spec.operator.clone(),
            spec: cert_spec,
            device: summary.device_snapshot.clone(),
            capabilities_snapshot: summary.capabilities_snapshot,
            disposition,
            sanitization,
            started_at: started,
            ended_at: ended,
            duration_seconds: duration_seconds(started, ended),
        })
    }

    /// The headline of a job's certificate, or `None` when no certificate
    /// is meaningful: no disposition, no start or end, or no erasure
    /// attempt with a resolved method. The most recent attempt is the one
    /// summarised: the one that succeeded for an erased asset, the last
    /// one tried for a destroyed or quarantined one.
    pub fn from_job(job: &JobSummary) -> (r: Option<CertificateHeadline>)
        requires
            job.started_at matches Some(s) ==> representable(s as int),
            job.ended_at matches Some(e) ==> representable(e as int),
        ensures
            r is Some <==> headline_owed(*job),
            r matches Some(h) ==> (latest_of(*job) matches Some(e) && headline_of(*job, e, h)),
    {
        let latest = job.latest_erasure();
        proof {
            match last_erasure(job.activities@) {
                Some(i) => {
                    assert(latest_of(*job) == Some(*latest->0));
                },
                None => {},
            }
        }
        Self::from_parts(&job.spec, job.state, job.started_at, job.ended_at, latest)
    }
}

/// Whether a certificate has been checked against a current validation
/// record for its method and media class.
#[derive(Debug, PartialEq, Eq)]
pub struct ValidationBlock {
    pub validated: bool,
    pub media_class: String,
    pub validation_ref: Option<String>,
    pub validation_expires: Option<i128>,
}

/// What the certificate generator produces for a job.
#[derive(Debug, PartialEq, Eq)]
pub struct CertificateDraft {
    pub headline: CertificateHeadline,
    pub validation: ValidationBlock,
    pub media_status: MediaStatus,
}

/// The instant a draft's job ends at: a job awaiting co-signature that has
/// no end yet ends now.
pub open spec fn draft_end(job: JobSummary, new_state: JobState, now: i128) -> Option<i128> {
    if new_state is PendingCoSign && job.ended_at is None { Some(now) } else { job.ended_at }
}

/// The state a draft's certificate reads: a job awaiting co-signature is
/// certified as destroyed, since the manifest flow finalises it so.
pub open spec fn draft_state(job: JobSummary, new_state: JobState) -> JobState {
    if new_state is PendingCoSign { JobState::Destroyed } else { job.state }
}

/// What the certificate generator produces when a job enters `new_state`:
/// nothing unless the state owes a certificate (erased, or awaiting a
/// co-signature) and the job has an erasure attempt. A job awaiting
/// co-signature is certified as destroyed and, if it has no end yet, as
/// ending `now`; its media is not operational. Validation is not yet
/// recorded, under the attempt's media class.
pub fn draft_certificate(job: &JobSummary, new_state: JobState, now: i128) -> (r: Option<CertificateDraft>)
    requires
        job.started_at matches Some(s) ==> representable(s as int),
        job.ended_at matches Some(e) ==> representable(e as int),
        representable(now as int),
    ensures
        !(new_state is Erased || new_state is PendingCoSign) ==> r is None,
        (new_state is Erased || new_state is PendingCoSign) ==> (r is Some <==> owed(
            draft_state(*job, new_state), job.started_at, draft_end(*job, new_state, now), latest_of(*job))),
        r matches Some(d) ==> latest_of(*job) matches Some(e)
            && headline_from(job.spec, draft_state(*job, new_state), job.started_at, draft_end(*job, new_state, now), e, d.headline)
            && !d.validation.validated
            && d.validation.media_class@ == crate::device::class_label_of(e.device_snapshot.media_type)
            && d.validation.validation_ref is None
            && d.validation.validation_expires is None
            && d.media_status.operational == !(new_state is PendingCoSign)
            && !d.media_status.damaged
            && d.media_status.notes is None,
{
    if !crate::job::needs_certificate(new_state) {
        return None;
    }
    let latest = job.latest_erasure();
    proof {
        match last_erasure(job.activities@) {
            Some(i) => {
                assert(latest_of(*job) == Some(*latest->0));
            },
            None => {},
        }
    }
    let e = match latest {
        Some(e) => e,
        None => {
            return None;
        },
    };
    let pending = match new_state {
        JobState::PendingCoSign => true,
        _ => false,
    };
    let state = if pending { JobState::Destroyed } else { job.state };
    let ended = if pending && job.ended_at.is_none() { Some(now) } else { job.ended_at };
    let headline = match CertificateHeadline::from_parts(&job.spec, state, job.started_at, ended, Some(e)) {
        Some(h) => h,
        None => {
            return None;
        },
    };
    Some(CertificateDraft {
        headline,
        validation: ValidationBlock {
            validated: false,
            media_class: String::from_str(e.device_snapshot.media_type.class_label()),
            validation_ref: None,
            validation_expires: None,
        },
        media_status: MediaStatus { operational: !pending, damaged: false, notes: None },
    })
}

/// The command evidence among the first `k` updates, in order.
pub open spec fn update_evidence(us: Seq<UpdateSummary>, k: int) -> Seq<EvidenceV>
    decreases k,
{
    if k <= 0 {
        Seq::empty()
    } else {
        let before = update_evidence(us, k - 1);
        match us[k - 1] {
            UpdateSummary::CommandIssued(c) => before.push(c@),
            UpdateSummary::CommandResult(c) => before.push(c@),
            _ => before,
        }
    }
}

/// The command evidence of the first `k` activities, erasure by erasure.
pub open spec fn activity_evidence(acts: Seq<ActivitySummary>, k: int) -> Seq<EvidenceV>
    decreases k,
{
    if k <= 0 {
        Seq::empty()
    } else {
        let before = activity_evidence(acts, k - 1);
        match acts[k - 1] {
            ActivitySummary::Erasure(e) => before + update_evidence(e.events@, e.events@.len() as int),
            _ => before,
        }
    }
}

pub open spec fn evidence_view(es: Seq<CommandEvidence>) -> Seq<EvidenceV> {
    es.map_values(|e: CommandEvidence| e@)
}

/// Every command issued and every command result across a job's erasure
/// attempts, in event order: the flat list a certificate renderer shows.
pub fn command_evidence(activities: &Vec<ActivitySummary>) -> (r: Vec<CommandEvidence>)
    ensures
        evidence_view(r@) == activity_evidence(activities@, activities@.len() as int),
{
    let mut out: Vec<CommandEvidence> = Vec::new();
    for k in 0..activities.len()
        invariant
            evidence_view(out@) == activity_evidence(activities@, k as int),
    {
        match &activities[k] {
            ActivitySummary::Erasure(e) => {
                let ghost start = out@;
                for u in 0..e.events.len()
                    invariant
                        evidence_view(out@) == evidence_view(start) + update_evidence(e.events@, u as int),
                {
                    match &e.events[u] {
                        UpdateSummary::CommandIssued(c) | UpdateSummary::CommandResult(c) => {
                            let ghost before = out@;
                            out.push(c.clone());
                            assert(evidence_view(out@) =~= evidence_view(before).push(c@));
                        },
                        _ => {},
                    }
                }
            },
            _ => {},
        }
    }
    out
}

/// A certificate is only produced for a job that reached a disposition:
/// an aborted or unfinished job never gets one.
pub proof fn law_no_certificate_without_disposition(job: JobSummary)
    requires
        job.state is Aborted || !crate::job::terminal(job.state),
    ensures
        !headline_owed(job),
{
}

/// The duration on a certificate is never negative and never exceeds the
/// time between its instants.
pub proof fn law_duration_is_bounded(started: i128, ended: i128)
    ensures
        whole_seconds_between(started, ended) >= 0,
        whole_seconds_between(started, ended) * NANOS_PER_SECOND <= if ended > started { ended - started } else { 0 },
{
    if ended > started {
        let d: int = ended - started;
        assert((d / 1_000_000_000) * 1_000_000_000 <= d) by (nonlinear_arith)
            requires d > 0;
    }
}

/// The duration on a certificate is the whole seconds between its
/// instants, rounded down: the time left over is less than one second.
pub proof fn law_duration_rounds_down_to_whole_seconds(started: i128, ended: i128)
    requires
        ended > started,
    ensures
        whole_seconds_between(started, ended) * 1_000_000_000 <= ended - started
            < (whole_seconds_between(started, ended) + 1) * 1_000_000_000,
{
    let d: int = ended - started;
    assert((d / 1_000_000_000) * 1_000_000_000 <= d < (d / 1_000_000_000 + 1) * 1_000_000_000) by (nonlinear_arith)
        requires d > 0;
}

/// Spec-level image of an update.
pub enum UpdateV {
    StateChanged { from: ErasureEventState, to: ErasureEventState },
    Progress,
    CommandIssued(EvidenceV),
    CommandResult(EvidenceV),
    Warning { code: Seq<char>, message: Seq<char> },
    Failed { reason: Seq<char> },
}

impl View for UpdateSummary {
    type V = UpdateV;

    open spec fn view(&self) -> UpdateV {
        match self {
            UpdateSummary::StateChanged { from, to } => UpdateV::StateChanged { from: *from, to: *to },
            UpdateSummary::Progress => UpdateV::Progress,
            UpdateSummary::CommandIssued(c) => UpdateV::CommandIssued(c@),
            UpdateSummary::CommandResult(c) => UpdateV::CommandResult(c@),
            UpdateSummary::Warning { code, message } => UpdateV::Warning { code: code@, message: message@ },
            UpdateSummary::Failed { reason } => UpdateV::Failed { reason: reason@ },
        }
    }
}

/// Spec-level image of an erasure attempt.
pub struct ErasureV {
    pub id: String,
    pub device_snapshot: Device,
    pub capabilities_snapshot: Capabilities,
    pub spec: ErasureEventSpec,
    pub resolved_method: Option<Method>,
    pub state: ErasureEventState,
    pub events: Seq<UpdateV>,
    pub created_at: i128,
    pub started_at: Option<i128>,
    pub ended_at: Option<i128>,
    pub station_id: Option<String>,
}

impl View for ErasureSummary {
    type V = ErasureV;

    open spec fn view(&self) -> ErasureV {
        ErasureV {
            id: self.id,
            device_snapshot: self.device_snapshot,
            capabilities_snapshot: self.capabilities_snapshot,
            spec: self.spec,
            resolved_method: self.resolved_method,
            state: self.state,
            events: self.events@.map_values(|u: UpdateSummary| u@),
            created_at: self.created_at,
            started_at: self.started_at,
            ended_at: self.ended_at,
            station_id: self.station_id,
        }
    }
}

/// Spec-level image of a diagnostic run.
pub struct DiagnosticV {
    pub id: String,
    pub device_id: DeviceId,
    pub at: i128,
    pub findings: Seq<DiagnosticFinding>,
    pub station_id: Option<String>,
}

impl View for DiagnosticRecord {
    type V = DiagnosticV;

    open spec fn view(&self) -> DiagnosticV {
        DiagnosticV { id: self.id, device_id: self.device_id, at: self.at, findings: self.findings@, station_id: self.station_id }
    }
}

/// Spec-level image of a read-back report.
pub struct ReportV {
    pub method: VerificationMethod,
    pub sample_count: u32,
    pub bytes_sampled: u64,
    pub samples: Seq<SampleRecord>,
    pub all_passed: bool,
}

impl View for ReportRecord {
    type V = ReportV;

    open spec fn view(&self) -> ReportV {
        ReportV {
            method: self.method,
            sample_count: self.sample_count,
            bytes_sampled: self.bytes_sampled,
            samples: self.samples@,
            all_passed: self.all_passed,
        }
    }
}

/// Spec-level image of a read-back.
pub struct VerificationV {
    pub id: String,
    pub erasure_event_id: String,
    pub device_id: DeviceId,
    pub at: i128,
    pub report: ReportV,
    pub station_id: Option<String>,
}

impl View for VerificationRecord {
    type V = VerificationV;

    open spec fn view(&self) -> VerificationV {
        VerificationV {
            id: self.id,
            erasure_event_id: self.erasure_event_id,
            device_id: self.device_id,
            at: self.at,
            report: self.report@,
            station_id: self.station_id,
        }
    }
}

/// Spec-level image of a destruction record.
pub struct DestructionV {
    pub id: String,
    pub device_id: DeviceId,
    pub at: i128,
    pub method: DestructMethod,
    pub operator: OperatorRef,
    pub supervisor: Option<OperatorRef>,
    pub manifest_ref: Option<String>,
    pub photo_refs: Seq<String>,
    pub notes: Option<String>,
    pub station_id: Option<String>,
}

impl View for DestructionRecord {
    type V = DestructionV;

    open spec fn view(&self) -> DestructionV {
        DestructionV {
            id: self.id,
            device_id: self.device_id,
            at: self.at,
            method: self.method,
            operator: self.operator,
            supervisor: self.supervisor,
            manifest_ref: self.manifest_ref,
            photo_refs: self.photo_refs@,
            notes: self.notes,
            station_id: self.station_id,
        }
    }
}

/// Spec-level image of an activity.
pub enum ActivityV {
    Diagnostic(DiagnosticV),
    HealthCheck(HealthCheckRecord),
    Erasure(ErasureV),
    Verification(VerificationV),
    Destruction(DestructionV),
}

impl View for ActivitySummary {
    type V = ActivityV;

    open spec fn view(&self) -> ActivityV {
        match self {
            ActivitySummary::Diagnostic(d) => ActivityV::Diagnostic(d@),
            ActivitySummary::HealthCheck(h) => ActivityV::HealthCheck(*h),
            ActivitySummary::Erasure(e) => ActivityV::Erasure(e@),
            ActivitySummary::Verification(v) => ActivityV::Verification(v@),
            ActivitySummary::Destruction(d) => ActivityV::Destruction(d@),
        }
    }
}

/// A job's activities seen through their views.
pub open spec fn activities_view(acts: Seq<ActivitySummary>) -> Seq<ActivityV> {
    acts.map_values(|a: ActivitySummary| a@)
}

fn clone_update(u: &UpdateSummary) -> (r: UpdateSummary)
    ensures
        r@ == u@,
{
    match u {
        UpdateSummary::StateChanged { from, to } => UpdateSummary::StateChanged { from: *from, to: *to },
        UpdateSummary::Progress => UpdateSummary::Progress,
        UpdateSummary::CommandIssued(c) => UpdateSummary::CommandIssued(c.clone()),
        UpdateSummary::CommandResult(c) => UpdateSummary::CommandResult(c.clone()),
        UpdateSummary::Warning { code, message } => UpdateSummary::Warning { code: code.clone(), message: message.clone() },
        UpdateSummary::Failed { reason } => UpdateSummary::Failed { reason: reason.clone() },
    }
}

fn clone_opt_operator(o: &Option<OperatorRef>) -> (r: Option<OperatorRef>)
    ensures
        r == *o,
{
    match o {
        Some(x) => Some(x.clone()),
        None => None,
    }
}

fn clone_strings(v: &Vec<String>) -> (r: Vec<String>)
    ensures
        r@ == v@,
{
    let mut out: Vec<String> = Vec::new();
    for k in 0..v.len()
        invariant
            out@.len() == k,
            forall|j: int| 0 <= j < k ==> out@[j] == v@[j],
    {
        out.push(v[k].clone());
    }
    assert(out@ =~= v@);
    out
}

impl Clone for ErasureEventSpec {
    fn clone(&self) -> (r: Self)
        ensures
            r == *self,
    {
        ErasureEventSpec {
            device_id: self.device_id.clone(),
            classification: self.classification,
            intent: self.intent,
            method: self.method,
            verify: self.verify,
            verify_samples: self.verify_samples,
            operator: self.operator.clone(),
            asset_tag: clone_opt_string(&self.asset_tag),
            site_label: clone_opt_string(&self.site_label),
            ticket_ref: clone_opt_string(&self.ticket_ref),
        }
    }
}

fn clone_erasure(e: &ErasureSummary) -> (r: ErasureSummary)
    ensures
        r@ == e@,
{
    let mut events: Vec<UpdateSummary> = Vec::new();
    for k in 0..e.events.len()
        invariant
            events@.len() == k,
            forall|j: int| 0 <= j < k ==> (#[trigger] events@[j])@ == e.events@[j]@,
    {
        events.push(clone_update(&e.events[k]));
    }
    assert(events@.map_values(|u: UpdateSummary| u@) =~= e.events@.map_values(|u: UpdateSummary| u@));
    ErasureSummary {
        id: e.id.clone(),
        device_snapshot: e.device_snapshot.clone(),
        capabilities_snapshot: e.capabilities_snapshot,
        spec: e.spec.clone(),
        resolved_method: e.resolved_method,
        state: e.state,
        events,
        created_at: e.created_at,
        started_at: e.started_at,
        ended_at: e.ended_at,
        station_id: clone_opt_string(&e.station_id),
    }
}

fn clone_diagnostic(d: &DiagnosticRecord) -> (r: DiagnosticRecord)
    ensures
        r@ == d@,
{
    let mut findings: Vec<DiagnosticFinding> = Vec::new();
    for k in 0..d.findings.len()
        invariant
            findings@.len() == k,
            forall|j: int| 0 <= j < k ==> findings@[j] == d.findings@[j],
    {
        findings.push(d.findings[k].clone());
    }
    assert(findings@ =~= d.findings@);
    DiagnosticRecord {
        id: d.id.clone(),
        device_id: d.device_id.clone(),
        at: d.at,
        findings,
        station_id: clone_opt_string(&d.station_id),
    }
}

fn clone_health(h: &HealthCheckRecord) -> (r: HealthCheckRecord)
    ensures
        r == *h,
{
    HealthCheckRecord {
        id: h.id.clone(),
        device_id: h.device_id.clone(),
        at: h.at,
        attributes_json: h.attributes_json.clone(),
        station_id: clone_opt_string(&h.station_id),
    }
}

fn clone_verification(v: &VerificationRecord) -> (r: VerificationRecord)
    ensures
        r@ == v@,
{
    let mut samples: Vec<SampleRecord> = Vec::new();
    for k in 0..v.report.samples.len()
        invariant
            samples@.len() == k,
            forall|j: int| 0 <= j < k ==> samples@[j] == v.report.samples@[j],
    {
        let x = &v.report.samples[k];
        samples.push(SampleRecord {
            offset_bytes: x.offset_bytes,
            size_bytes: x.size_bytes,
            sha256_hex: x.sha256_hex.clone(),
            passed: x.passed,
        });
    }
    assert(samples@ =~= v.report.samples@);
    VerificationRecord {
        id: v.id.clone(),
        erasure_event_id: v.erasure_event_id.clone(),
        device_id: v.device_id.clone(),
        at: v.at,
        report: ReportRecord {
            method: v.report.method,
            sample_count: v.report.sample_count,
            bytes_sampled: v.report.bytes_sampled,
            samples,
            all_passed: v.report.all_passed,
        },
        station_id: clone_opt_string(&v.station_id),
    }
}

fn clone_destruction(d: &DestructionRecord) -> (r: DestructionRecord)
    ensures
        r@ == d@,
{
    DestructionRecord {
        id: d.id.clone(),
        device_id: d.device_id.clone(),
        at: d.at,
        method: d.method,
        operator: d.operator.clone(),
        supervisor: clone_opt_operator(&d.supervisor),
        manifest_ref: clone_opt_string(&d.manifest_ref),
        photo_refs: clone_strings(&d.photo_refs),
        notes: clone_opt_string(&d.notes),
        station_id: clone_opt_string(&d.station_id),
    }
}

/// A copy of a job's activities.
fn clone_activities(acts: &Vec<ActivitySummary>) -> (r: Vec<ActivitySummary>)
    ensures
        activities_view(r@) == activities_view(acts@),
{
    let mut out: Vec<ActivitySummary> = Vec::new();
    for k in 0..acts.len()
        invariant
            out@.len() == k,
            forall|j: int| 0 <= j < k ==> (#[trigger] out@[j])@ == acts@[j]@,
    {
        let a = match &acts[k] {
            ActivitySummary::Diagnostic(d) => ActivitySummary::Diagnostic(clone_diagnostic(d)),
            ActivitySummary::HealthCheck(h) => ActivitySummary::HealthCheck(clone_health(h)),
            ActivitySummary::Erasure(e) => ActivitySummary::Erasure(clone_erasure(e)),
            ActivitySummary::Verification(v) => ActivitySummary::Verification(clone_verification(v)),
            ActivitySummary::Destruction(d) => ActivitySummary::Destruction(clone_destruction(d)),
        };
        assert(a@ == acts@[k as int]@);
        out.push(a);
    }
    assert(activities_view(out@) =~= activities_view(acts@));
    out
}

/// A pointer to a later audit-sample verification of the certificate.
#[derive(Debug, PartialEq, Eq)]
pub struct AuditVerificationRef {
    pub id: String,
    pub at: Option<i128>,
}

/// A sanitization certificate: the job's headline, its full activity
/// chain, and who issued it when. `evaluation` marks a certificate made
/// without a valid licence; it sits inside the signed payload.
#[derive(Debug, PartialEq, Eq)]
pub struct Certificate {
    pub context: String,
    pub type_: String,
    pub id: String,
    pub cert_format_version: u32,
    pub issuer: CertIssuer,
    pub issued_at: i128,
    pub job_id: String,
    pub operator: OperatorRef,
    pub spec: CertSpecRef,
    pub device: Device,
    pub capabilities_snapshot: Capabilities,
    pub disposition: AssetDisposition,
    pub sanitization: SanitizationBlock,
    pub activities: Vec<ActivitySummary>,
    pub started_at: i128,
    pub ended_at: i128,
    pub duration_seconds: u64,
    pub validation: ValidationBlock,
    pub media_status: MediaStatus,
    pub evaluation: bool,
    pub audit_verification_ref: Option<AuditVerificationRef>,
}

/// The headline fields of a certificate.
pub open spec fn headline_part(c: Certificate) -> CertificateHeadline {
    CertificateHeadline {
        operator: c.operator,
        spec: c.spec,
        device: c.device,
        capabilities_snapshot: c.capabilities_snapshot,
        disposition: c.disposition,
        sanitization: c.sanitization,
        started_at: c.started_at,
        ended_at: c.ended_at,
        duration_seconds: c.duration_seconds,
    }
}

/// `c` is the certificate of `job`, issued by `issuer` with the given
/// validation and media status, marked evaluation or not, under id `id`
/// at instant `issued_at`.
pub open spec fn certificate_of(
    job: JobSummary,
    issuer: CertIssuer,
    validation: ValidationBlock,
    media_status: MediaStatus,
    evaluation: bool,
    id: String,
    issued_at: i128,
    c: Certificate,
) -> bool {
    &&& latest_of(job) matches Some(e) && headline_of(job, e, headline_part(c))
    &&& c.context@ == CONTEXT_URI@
    &&& c.type_@ == "SanitizationCertificate"@
    &&& c.id == id
    &&& c.cert_format_version == CERT_FORMAT_VERSION
    &&& c.issuer == issuer
    &&& c.issued_at == issued_at
    &&& c.job_id == job.id
    &&& activities_view(c.activities@) == activities_view(job.activities@)
    &&& c.validation == validation
    &&& c.media_status == media_status
    &&& c.evaluation == evaluation
    &&& c.audit_verification_ref is None
}

/// A fresh random UUID in its hyphenated text form (`uuid::Uuid::new_v4`,
/// `Display`), which is always 36 characters. Nothing else is promised of
/// its value.
#[verifier::external_body]
pub(crate) fn fresh_uuid_text() -> (r: String)
    ensures
        r@.len() == 36,
{
    uuid::Uuid::new_v4().to_string()
}

/// The current UTC time in nanoseconds since the epoch
/// (`time::OffsetDateTime::now_utc`, `unix_timestamp_nanos`); it lies in
/// the clock's range. Nothing else is promised of its value.
#[verifier::external_body]
pub(crate) fn now_utc_nanos() -> (r: i128)
    ensures
        representable(r as int),
{
    time::OffsetDateTime::now_utc().unix_timestamp_nanos()
}

impl Certificate {
    /// The certificate of a job, or `None` when no certificate is
    /// meaningful (see `CertificateHeadline::from_job`); `id` and
    /// `issued_at` are the certificate's identifier and issue instant.
    pub fn from_job(
        job: &JobSummary,
        issuer: CertIssuer,
        validation: ValidationBlock,
        media_status: MediaStatus,
        evaluation: bool,
        id: String,
        issued_at: i128,
    ) -> (r: Option<Certificate>)
        requires
            job.started_at matches Some(s) ==> representable(s as int),
            job.ended_at matches Some(e) ==> representable(e as int),
        ensures
            r is Some <==> headline_owed(*job),
            r matches Some(c) ==> certificate_of(*job, issuer, validation, media_status, evaluation, id, issued_at, c),
    {
        let h = match CertificateHeadline::from_job(job) {
            Some(h) => h,
            None => {
                return None;
            },
        };
        let activities = clone_activities(&job.activities);
        let c = Certificate {
            context: String::from_str(CONTEXT_URI),
            type_: String::from_str("SanitizationCertificate"),
            id,
            cert_format_version: CERT_FORMAT_VERSION,
            issuer,
            issued_at,
            job_id: job.id.clone(),
            operator: h.operator,
            spec: h.spec,
            device: h.device,
            capabilities_snapshot: h.capabilities_snapshot,
            disposition: h.disposition,
            sanitization: h.sanitization,
            activities,
            started_at: h.started_at,
            ended_at: h.ended_at,
            duration_seconds: h.duration_seconds,
            validation,
            media_status,
            evaluation,
            audit_verification_ref: None,
        };
        Some(c)
    }

    /// The certificate of a job as issued now, under a fresh
    /// `urn:uuid:` identifier.
    pub fn from_job_now(
        job: &JobSummary,
        issuer: CertIssuer,
        validation: ValidationBlock,
        media_status: MediaStatus,
        evaluation: bool,
    ) -> (r: Option<Certificate>)
        requires
            job.started_at matches Some(s) ==> representable(s as int),
            job.ended_at matches Some(e) ==> representable(e as int),
        ensures
            r is Some <==> headline_owed(*job),
            r matches Some(c) ==> certificate_of(*job, issuer, validation, media_status, evaluation, c.id, c.issued_at, c)
                && c.id@.len() == 45
                && c.id@.subrange(0, 9) == "urn:uuid:"@
                && representable(c.issued_at as int),
    {
        let mut id = String::from_str("urn:uuid:");
        let u = fresh_uuid_text();
        append_str(&mut id, u.as_str());
        proof {
            reveal_strlit("urn:uuid:");
            assert(id@.subrange(0, 9) =~= "urn:uuid:"@);
        }
        let at = now_utc_nanos();
        Self::from_job(job, issuer, validation, media_status, evaluation, id, at)
    }
}

/// Who adds a co-signature to a certificate.
#[derive(Debug, Clone, Copy, PartialEq, Eq, Structural)]
pub enum CoSignerRole {
    /// The supervisor co-signature a destroyed asset's certificate needs.
    Supervisor,
    /// An auditor's attestation.
    Auditor,
}

/// A further signature over the same certificate payload.
#[derive(Debug, PartialEq, Eq)]
pub struct CoSignatureBlock {
    pub signature: SignatureBlock,
    pub role: CoSignerRole,
    /// The destruction manifest this co-signature was attached as part of.
    pub manifest_ref: Option<String>,
    pub signer: OperatorRef,
    /// Nanoseconds since the Unix epoch.
    pub signed_at: i128,
}

/// A certificate with its detached signature, the co-signatures added
/// since, and, for a licensed station, the attestation chain stapled
/// alongside (outside the signed payload).
#[derive(Debug, PartialEq, Eq)]
pub struct SignedCertificate {
    pub certificate: Certificate,
    pub signature: SignatureBlock,
    pub co_signatures: Vec<CoSignatureBlock>,
    pub attestation: Option<AttestationChain>,
}

/// Sign a certificate, given its canonical encoding `canonical`; no
/// co-signature or chain is attached yet.
pub fn sign_certificate(certificate: Certificate, canonical: &[u8], key: &SigningKey) -> (r: SignedCertificate)
    ensures
        r.certificate == certificate,
        r.signature@ == block_of(key@, canonical@),
        r.co_signatures@.len() == 0,
        r.attestation is None,
{
    let signature = sign_canonical(canonical, key);
    SignedCertificate { certificate, signature, co_signatures: Vec::new(), attestation: None }
}

/// Staple an attestation chain to a signed certificate; the certificate
/// and its signatures are untouched.
pub fn attach_attestation(signed: &mut SignedCertificate, chain: AttestationChain)
    ensures
        final(signed).attestation == Some(chain),
        final(signed).certificate == old(signed).certificate,
        final(signed).signature == old(signed).signature,
        final(signed).co_signatures == old(signed).co_signatures,
{
    signed.attestation = Some(chain);
}

/// Add a co-signature at instant `at`: the co-signer signs the same
/// canonical bytes `canonical` as the primary signer, so the block verifies
/// under the co-signer's own key. Everything else is untouched.
pub fn co_sign_at(
    signed: &mut SignedCertificate,
    canonical: &[u8],
    key: &SigningKey,
    role: CoSignerRole,
    signer: OperatorRef,
    manifest_ref: Option<String>,
    at: i128,
)
    ensures
        final(signed).co_signatures@.len() == old(signed).co_signatures@.len() + 1,
        final(signed).co_signatures@.subrange(0, old(signed).co_signatures@.len() as int) == old(signed).co_signatures@,
        ({
            let b = final(signed).co_signatures@.last();
            &&& b.signature@ == block_of(key@, canonical@)
            &&& b.role == role
            &&& b.manifest_ref == manifest_ref
            &&& b.signer == signer
            &&& b.signed_at == at
        }),
        spec_check(canonical@, block_of(key@, canonical@).canonical_sha256_hex, block_of(key@, canonical@).signature_b64,
            block_of(key@, canonical@).public_key_id, seq![ed_public_of(key@)]) == Finding::Accepted(key_id_of(ed_public_of(key@))),
        final(signed).certificate == old(signed).certificate,
        final(signed).signature == old(signed).signature,
        final(signed).attestation == old(signed).attestation,
{
    let signature = sign_canonical(canonical, key);
    signed.co_signatures.push(CoSignatureBlock { signature, role, manifest_ref, signer, signed_at: at });
    proof {
        assert(signed.co_signatures@.subrange(0, old(signed).co_signatures@.len() as int) =~= old(signed).co_signatures@);
    }
}

/// Add a co-signature now (see `co_sign_at`).
pub fn co_sign(
    signed: &mut SignedCertificate,
    canonical: &[u8],
    key: &SigningKey,
    role: CoSignerRole,
    signer: OperatorRef,
    manifest_ref: Option<String>,
)
    ensures
        final(signed).co_signatures@.len() == old(signed).co_signatures@.len() + 1,
        final(signed).co_signatures@.subrange(0, old(signed).co_signatures@.len() as int) == old(signed).co_signatures@,
        ({
            let b = final(signed).co_signatures@.last();
            &&& b.signature@ == block_of(key@, canonical@)
            &&& b.role == role
            &&& b.manifest_ref == manifest_ref
            &&& b.signer == signer
            &&& representable(b.signed_at as int)
        }),
        final(signed).certificate == old(signed).certificate,
        final(signed).signature == old(signed).signature,
        final(signed).attestation == old(signed).attestation,
{
    let at = now_utc_nanos();
    co_sign_at(signed, canonical, key, role, signer, manifest_ref, at);
}

/// Verify a signed certificate's primary signature over its canonical
/// encoding against trusted keys; returns the id of the key that verified
/// it. Co-signatures are verified separately.
pub fn verify(signed: &SignedCertificate, canonical: &[u8], trusted: &[VerifyingKey]) -> (r: Result<String, CertError>)
    ensures
        verify_outcome(r, canonical@, signed.signature@, keys_view(trusted@)),
{
    verify_canonical(canonical, &signed.signature, trusted)
}

/// Verify every co-signature over the certificate's canonical encoding, in
/// order, against trusted keys; the first failure is the result, else the
/// ids of the keys that verified them.
pub fn verify_co_signatures(signed: &SignedCertificate, canonical: &[u8], trusted: &[VerifyingKey]) -> (r: Result<Vec<String>, CertError>)
    ensures
        ({
            let cs = signed.co_signatures@;
            match r {
                Ok(ids) => ids@.len() == cs.len() && forall|i: int| 0 <= i < cs.len() ==>
                    verify_result_ok(canonical@, (#[trigger] cs[i]).signature@, keys_view(trusted@)) == Some(ids@[i]@),
                Err(e) => exists|i: int| 0 <= i < cs.len() && verify_result_ok(canonical@, (#[trigger] cs[i]).signature@, keys_view(trusted@)) is None
                    && failure_matches(e, canonical@, cs[i].signature@, keys_view(trusted@))
                    && forall|j: int| 0 <= j < i ==> verify_result_ok(canonical@, (#[trigger] cs[j]).signature@, keys_view(trusted@)) is Some,
            }
        }),
{
    let ghost cs = signed.co_signatures@;
    let mut ids: Vec<String> = Vec::new();
    for i in 0..signed.co_signatures.len()
        invariant
            cs == signed.co_signatures@,
            ids@.len() == i,
            forall|j: int| 0 <= j < i ==> verify_result_ok(canonical@, (#[trigger] cs[j]).signature@, keys_view(trusted@)) == Some(ids@[j]@),
    {
        match verify_canonical(canonical, &signed.co_signatures[i].signature, trusted) {
            Ok(id) => {
                ids.push(id);
            },
            Err(e) => {
                return Err(e);
            },
        }
    }
    Ok(ids)
}

} // verus!
