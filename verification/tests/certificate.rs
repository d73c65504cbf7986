//! What a certificate takes from its job, and how its attestation chain is
//! reported to whoever verifies it.

use wipestation::attestation_report::{report_attestation, verdict_report};
use wipestation::cert::verify_canonical;
use wipestation::cert::SigningKey;
use wipestation::certificate::{
    attach_attestation, co_sign_at, command_evidence, draft_certificate, sign_certificate,
    verify_co_signatures, ActivitySummary, CertIssuer, Certificate, CertificateHeadline,
    CoSignerRole, DestructionRecord, DiagnosticRecord, ErasureEventSpec, ErasureSummary, JobSpec,
    JobSummary, MediaStatus, ReportRecord, SampleRecord, SignedCertificate, UpdateSummary,
    ValidationBlock, VerificationRecord,
};
use wipestation::device::DeviceId;
use wipestation::job::{
    AssetDisposition, DiagnosticFinding, DiagnosticSeverity, ErasureEventState, JobState,
    OperatorRef, VerificationMethod,
};
use wipestation::license::{AllowedMethods, Entitlements, Quota, Scope};
use wipestation::license_chain::{verify_chain, AttestationChain, ChainVerdict, VendorRoot};
use wipestation::method::{Category, Classification, DestructMethod, Intent, Method};
use wipestation::mock::{complete_evidence, default_caps_for, default_devices_public, issue_evidence};

const SECOND: i128 = 1_000_000_000;

fn spec() -> JobSpec {
    JobSpec {
        device_id: DeviceId::from("dev-nvme-0"),
        classification: Classification::High,
        intent: Intent::Reuse,
        operator: OperatorRef {
            id: "op-1".into(),
            display_name: "Olga Operator".into(),
            email: "olga@example.com".into(),
        },
        asset_tag: Some("A-100".into()),
        site_label: None,
        ticket_ref: Some("T-9".into()),
        work_order_ref: None,
        customer_ref: None,
        contract_ref: None,
        sanitization_profile_ref: None,
    }
}

fn erasure(method: Option<Method>, device: usize) -> ActivitySummary {
    let d = default_devices_public().swap_remove(device);
    let caps = default_caps_for(&d);
    let events = match method {
        Some(m) => vec![
            UpdateSummary::StateChanged { from: ErasureEventState::Confirming, to: ErasureEventState::Running },
            UpdateSummary::CommandIssued(issue_evidence(&m)),
            UpdateSummary::Progress,
            UpdateSummary::CommandResult(complete_evidence(&m, "ok")),
        ],
        None => vec![UpdateSummary::Failed { reason: "no method resolved".into() }],
    };
    ActivitySummary::Erasure(ErasureSummary {
        id: format!("erasure-{device}"),
        device_snapshot: d,
        capabilities_snapshot: caps,
        spec: ErasureEventSpec::for_job(&spec()),
        resolved_method: method,
        state: if method.is_some() { ErasureEventState::Completed } else { ErasureEventState::Failed },
        events,
        created_at: 1_780_000_000 * SECOND,
        started_at: Some(1_780_000_001 * SECOND),
        ended_at: Some(1_780_000_080 * SECOND),
        station_id: Some("bench-1".into()),
    })
}

fn diagnostic() -> ActivitySummary {
    ActivitySummary::Diagnostic(DiagnosticRecord {
        id: "diag-1".into(),
        device_id: DeviceId::from("dev-nvme-0"),
        at: 1_779_999_990 * SECOND,
        findings: vec![DiagnosticFinding {
            code: "hpa".into(),
            severity: DiagnosticSeverity::Info,
            message: "no host protected area".into(),
        }],
        station_id: None,
    })
}

fn read_back() -> ActivitySummary {
    ActivitySummary::Verification(VerificationRecord {
        id: "ver-1".into(),
        erasure_event_id: "erasure-0".into(),
        device_id: DeviceId::from("dev-nvme-0"),
        at: 1_780_000_085 * SECOND,
        report: ReportRecord {
            method: VerificationMethod::SampledEntropy,
            sample_count: 1,
            bytes_sampled: 4096,
            samples: vec![SampleRecord { offset_bytes: 0, size_bytes: 4096, sha256_hex: "ab".into(), passed: true }],
            all_passed: true,
        },
        station_id: Some("bench-1".into()),
    })
}

fn crypto() -> Method {
    Method::NvmeSanitizeCryptoErase { ause: false, no_deallocate: false }
}

fn finished_job() -> JobSummary {
    JobSummary {
        id: "6f1c2a9e-0000-4000-8000-000000000001".into(),
        state: JobState::Erased,
        spec: spec(),
        activities: vec![
            diagnostic(),
            erasure(Some(Method::NvmeSanitizeBlockErase { ause: false, no_deallocate: false }), 1),
            erasure(Some(crypto()), 0),
            read_back(),
        ],
        started_at: Some(1_780_000_000 * SECOND),
        ended_at: Some(1_780_000_090 * SECOND + 999_999_999),
    }
}

#[test]
fn a_finished_job_gets_a_headline_from_its_latest_attempt() {
    let h = CertificateHeadline::from_job(&finished_job()).expect("certificate owed");
    assert_eq!(h.disposition, AssetDisposition::Erased);
    assert_eq!(h.sanitization.method, crypto());
    assert_eq!(h.sanitization.category, Category::Purge);
    assert_eq!(h.sanitization.method_human, "NVMe Sanitize — Crypto Erase");
    assert_eq!(h.sanitization.standard_refs.len(), 2);
    assert_eq!(h.sanitization.standard_refs[0].standard, "NIST SP 800-88 Rev. 2");
    assert_eq!(h.device.id, DeviceId::from("dev-nvme-0"));
    assert_eq!(h.duration_seconds, 90);
    assert_eq!(h.operator.display_name, "Olga Operator");
    assert_eq!(h.spec.asset_tag.as_deref(), Some("A-100"));
    assert_eq!(h.spec.ticket_ref.as_deref(), Some("T-9"));
}

#[test]
fn the_latest_erasure_is_the_last_one_recorded() {
    let job = finished_job();
    match job.latest_erasure() {
        Some(e) => assert_eq!(e.resolved_method, Some(crypto())),
        None => panic!("an erasure was recorded"),
    }
    let mut none = finished_job();
    none.activities = vec![diagnostic()];
    assert!(none.latest_erasure().is_none());
}

#[test]
fn an_aborted_job_does_not_get_a_certificate() {
    let mut job = finished_job();
    job.state = JobState::Aborted;
    assert!(CertificateHeadline::from_job(&job).is_none());
    job.state = JobState::InProgress;
    assert!(CertificateHeadline::from_job(&job).is_none());
}

#[test]
fn a_job_without_times_or_a_resolved_method_gets_no_certificate() {
    let mut job = finished_job();
    job.ended_at = None;
    assert!(CertificateHeadline::from_job(&job).is_none());

    let mut job = finished_job();
    job.activities.push(erasure(None, 0));
    assert!(CertificateHeadline::from_job(&job).is_none());
}

#[test]
fn a_clock_that_ran_backwards_gives_a_zero_duration() {
    let mut job = finished_job();
    job.state = JobState::Destroyed;
    job.ended_at = Some(1_779_999_000 * SECOND);
    let h = CertificateHeadline::from_job(&job).unwrap();
    assert_eq!(h.duration_seconds, 0);
    assert_eq!(h.disposition, AssetDisposition::Destroyed);
}

#[test]
fn an_erased_job_is_drafted_as_operational_media() {
    let d = draft_certificate(&finished_job(), JobState::Erased, 0).expect("draft");
    assert_eq!(d.headline.disposition, AssetDisposition::Erased);
    assert!(d.media_status.operational);
    assert!(!d.validation.validated);
    assert_eq!(d.validation.media_class, "ssd-nvme");
}

#[test]
fn a_job_awaiting_co_signature_is_drafted_as_destroyed() {
    let mut job = finished_job();
    job.state = JobState::PendingCoSign;
    job.ended_at = None;
    let now = 1_780_000_200 * SECOND;
    let d = draft_certificate(&job, JobState::PendingCoSign, now).expect("draft");
    assert_eq!(d.headline.disposition, AssetDisposition::Destroyed);
    assert_eq!(d.headline.ended_at, now);
    assert_eq!(d.headline.duration_seconds, 200);
    assert!(!d.media_status.operational);
}

#[test]
fn other_states_draft_nothing() {
    assert!(draft_certificate(&finished_job(), JobState::InProgress, 0).is_none());
    assert!(draft_certificate(&finished_job(), JobState::Aborted, 0).is_none());
    let mut no_attempt = finished_job();
    no_attempt.activities = vec![diagnostic()];
    assert!(draft_certificate(&no_attempt, JobState::Erased, 0).is_none());
}

#[test]
fn command_evidence_is_flattened_in_event_order() {
    let job = finished_job();
    let ev = command_evidence(&job.activities);
    assert_eq!(ev.len(), 4);
    assert_eq!(ev[0].action, Some(0x02));
    assert_eq!(ev[1].note.as_deref(), Some("ok (mock)"));
    assert_eq!(ev[2].action, Some(0x04));
    assert_eq!(ev[3].log_page, Some(vec![0xff, 0xff, 0x01, 0, 0, 0, 0, 0]));
}

#[test]
fn the_first_attempt_selects_its_method_and_verifies() {
    let s = spec();
    let e = ErasureEventSpec::for_job(&s);
    assert_eq!(e.device_id, s.device_id);
    assert_eq!(e.method, None);
    assert!(e.verify);
    assert_eq!(e.verify_samples, 8);
    assert_eq!(e.operator, s.operator);
    assert_eq!(e.asset_tag.as_deref(), Some("A-100"));
    assert_eq!(e.ticket_ref.as_deref(), Some("T-9"));
}

// --- attestation report ----------------------------------------------------

fn licensed(expired: bool) -> ChainVerdict {
    ChainVerdict::Licensed {
        customer_id: "cust-42".into(),
        customer_name: "Northwind ITAD".into(),
        license_id: "lic-1".into(),
        root_key_id: "ed25519:root".into(),
        expired_at_signing: expired,
    }
}

#[test]
fn a_licensed_chain_is_reported_with_its_customer() {
    let r = verdict_report(&licensed(false), false, true);
    assert_eq!(
        r.lines,
        vec![
            "\nLICENSED — attestation chain verified to vendor root ed25519:root".to_string(),
            "  customer: Northwind ITAD (cust-42)".to_string(),
            "  license:  lic-1".to_string(),
        ]
    );
    assert_eq!(r.failure, None);
}

#[test]
fn contradictions_between_chain_and_marker_are_findings() {
    let r = verdict_report(&licensed(true), true, false);
    assert_eq!(r.lines.len(), 5);
    assert!(r.lines[3].contains("had expired"));
    assert!(r.lines[4].contains("WARNING"));

    let r = verdict_report(&ChainVerdict::Unlicensed, false, false);
    assert_eq!(r.lines.len(), 3);
    assert!(r.lines[2].contains("does not mark itself `evaluation`"));
    assert_eq!(r.failure, None);
}

#[test]
fn requiring_a_licence_fails_an_unlicensed_certificate() {
    let r = verdict_report(&ChainVerdict::Unlicensed, true, true);
    assert_eq!(r.lines.len(), 2);
    assert_eq!(
        r.failure.as_deref(),
        Some("--require-licensed was set but this certificate is unlicensed")
    );
}

#[test]
fn an_invalid_chain_always_fails() {
    let r = verdict_report(&ChainVerdict::Invalid { reason: "bad".into() }, false, false);
    assert!(r.lines.is_empty());
    assert_eq!(r.failure.as_deref(), Some("attestation chain INVALID: bad"));
}

#[test]
fn without_roots_the_chain_is_not_checked() {
    let r = report_attestation(None, &[], "k", 0, true, &[], true);
    assert_eq!(
        r.lines,
        vec!["\n  attestation: none — EVALUATION certificate (unlicensed station)".to_string()]
    );
    assert_eq!(r.failure, None);
}

#[test]
fn a_stolen_licence_cannot_launder_another_stations_certificate() {
    let root = VendorRoot::generate();
    let licensed_station = SigningKey::generate();
    let thief = SigningKey::generate();
    let ent = Entitlements {
        customer_id: "cust-42".into(),
        customer_name: "Northwind ITAD".into(),
        quota: Quota::Unlimited,
        scope: Scope::Site { site_id: "s".into() },
        not_before: 0,
        not_after: 2_000_000_000 * SECOND,
        features: vec![],
        allowed_methods: AllowedMethods::All,
        machine_binding: None,
    };
    let body = root.license_body("lic-1", licensed_station.public_key_id(), ent, 0);
    let bytes = format!("{body:?}").into_bytes();
    let chain = AttestationChain::new(root.issue(body, &bytes));

    let ok = report_attestation(
        Some(&chain),
        &bytes,
        &licensed_station.public_key_id(),
        1_780_000_000 * SECOND,
        false,
        &[root.verifying_key()],
        true,
    );
    assert_eq!(ok.failure, None);

    let stolen = report_attestation(
        Some(&chain),
        &bytes,
        &thief.public_key_id(),
        1_780_000_000 * SECOND,
        false,
        &[root.verifying_key()],
        false,
    );
    let f = stolen.failure.expect("a stolen licence must fail");
    assert!(f.contains("entitles instance key"), "{f}");
}

// --- certificates and their chains -------------------------------------------

fn issuer(key: &SigningKey) -> CertIssuer {
    CertIssuer {
        tool_name: "wipestation".into(),
        tool_version: "0.1.0".into(),
        public_key_id: key.public_key_id(),
    }
}

fn build_cert(key: &SigningKey, evaluation: bool) -> Certificate {
    Certificate::from_job(
        &finished_job(),
        issuer(key),
        ValidationBlock {
            validated: false,
            media_class: "ssd-nvme".into(),
            validation_ref: None,
            validation_expires: None,
        },
        MediaStatus { operational: true, damaged: false, notes: None },
        evaluation,
        "urn:uuid:00000000-0000-4000-8000-000000000042".into(),
        1_780_000_100 * SECOND,
    )
    .expect("cert builds")
}

/// A certificate's `Debug` text stands in for its canonical encoding, which
/// changes with any field.
fn canonical(c: &Certificate) -> Vec<u8> {
    format!("{c:?}").into_bytes()
}

fn sign(c: Certificate, key: &SigningKey) -> SignedCertificate {
    let bytes = canonical(&c);
    sign_certificate(c, &bytes, key)
}

fn verify(signed: &SignedCertificate, key: &SigningKey) -> Result<String, wipestation::cert::CertError> {
    verify_canonical(&canonical(&signed.certificate), &signed.signature, &[key.verifying_key()])
}

fn entitlements() -> Entitlements {
    Entitlements {
        customer_id: "cust-7".into(),
        customer_name: "Acme Recycling".into(),
        quota: Quota::Unlimited,
        scope: Scope::Site { site_id: "site-a".into() },
        not_before: 1_780_000_000 * SECOND - 86_400 * SECOND,
        not_after: 1_780_000_000 * SECOND + 364 * 86_400 * SECOND,
        features: vec![],
        allowed_methods: AllowedMethods::All,
        machine_binding: None,
    }
}

fn licence_for(root: &VendorRoot, key_id: String) -> (AttestationChain, Vec<u8>) {
    let body = root.license_body("lic-9", key_id, entitlements(), 1_780_000_000 * SECOND);
    let bytes = format!("{body:?}").into_bytes();
    (AttestationChain::new(root.issue(body, &bytes)), bytes)
}

#[test]
fn a_certificate_carries_the_whole_job() {
    let key = SigningKey::generate();
    let c = build_cert(&key, false);
    assert_eq!(c.cert_format_version, 2);
    assert_eq!(c.context, "https://wipestation.dev/contexts/sanitization-cert-v2");
    assert_eq!(c.type_, "SanitizationCertificate");
    assert_eq!(c.job_id, finished_job().id);
    assert_eq!(c.activities, finished_job().activities);
    assert_eq!(c.id, "urn:uuid:00000000-0000-4000-8000-000000000042");
    assert_eq!(c.issued_at, 1_780_000_100 * SECOND);
    assert!(!c.evaluation);
    assert!(c.audit_verification_ref.is_none());
}

#[test]
fn a_certificate_issued_now_gets_a_fresh_urn() {
    let key = SigningKey::generate();
    let c = Certificate::from_job_now(
        &finished_job(),
        issuer(&key),
        ValidationBlock { validated: false, media_class: "ssd-nvme".into(), validation_ref: None, validation_expires: None },
        MediaStatus { operational: true, damaged: false, notes: None },
        true,
    )
    .unwrap();
    assert!(c.id.starts_with("urn:uuid:"));
    assert_eq!(c.id.len(), 45);
    assert!(c.evaluation);
}

#[test]
fn a_licensed_certificate_verifies_on_both_axes() {
    let root = VendorRoot::generate();
    let instance = SigningKey::generate();
    let (chain, licence_bytes) = licence_for(&root, instance.public_key_id());

    let mut signed = sign(build_cert(&instance, false), &instance);
    attach_attestation(&mut signed, chain);

    // Axis 1: the payload is intact and was signed by the instance key.
    let key_id = verify(&signed, &instance).unwrap();
    assert_eq!(key_id, instance.public_key_id());

    // Axis 2: that key was licensed. These are separate questions.
    let verdict = verify_chain(
        signed.attestation.as_ref(),
        &licence_bytes,
        &signed.signature.public_key_id,
        signed.certificate.issued_at,
        &[root.verifying_key()],
    );
    assert!(verdict.is_licensed(), "{:?}", verdict);
    assert!(!signed.certificate.evaluation);
}

#[test]
fn attaching_a_chain_does_not_disturb_the_erasure_signature() {
    // The chain rides outside the signed payload, so a licence can be
    // re-stapled after a renewal without invalidating a checked signature.
    let root = VendorRoot::generate();
    let instance = SigningKey::generate();
    let mut signed = sign(build_cert(&instance, false), &instance);

    let before = signed.signature.clone();
    let (chain, _) = licence_for(&root, instance.public_key_id());
    attach_attestation(&mut signed, chain);

    assert_eq!(before.canonical_sha256_hex, signed.signature.canonical_sha256_hex);
    assert!(verify(&signed, &instance).is_ok());
}

#[test]
fn an_evaluation_certificate_is_fully_valid_and_clearly_unlicensed() {
    // Free tier: the erasure was real, the signature holds, and nothing about
    // it can be mistaken for licensed output.
    let root = VendorRoot::generate();
    let instance = SigningKey::generate();
    let signed = sign(build_cert(&instance, true), &instance);

    assert!(verify(&signed, &instance).is_ok());
    assert!(signed.certificate.evaluation);
    assert!(signed.attestation.is_none());
    assert_eq!(
        verify_chain(
            None,
            &[],
            &signed.signature.public_key_id,
            signed.certificate.issued_at,
            &[root.verifying_key()]
        ),
        ChainVerdict::Unlicensed
    );
}

#[test]
fn the_evaluation_marker_cannot_be_stripped_without_breaking_the_signature() {
    let instance = SigningKey::generate();
    let mut signed = sign(build_cert(&instance, true), &instance);

    signed.certificate.evaluation = false;

    let err = verify(&signed, &instance).unwrap_err();
    assert!(
        err.message().contains("canonical SHA-256 mismatch"),
        "expected a tamper detection, got: {}",
        err.message()
    );
}

#[test]
fn a_certificate_carries_its_disposition_and_category_alongside_the_chain() {
    let instance = SigningKey::generate();
    let signed = sign(build_cert(&instance, true), &instance);
    assert_eq!(signed.certificate.disposition, AssetDisposition::Erased);
    assert_eq!(signed.certificate.sanitization.category, Category::Purge);
}

#[test]
fn a_certificate_keeps_every_activity_with_its_ids_and_instants() {
    let key = SigningKey::generate();
    let mut job = finished_job();
    job.activities.push(ActivitySummary::Destruction(DestructionRecord {
        id: "destr-1".into(),
        device_id: DeviceId::from("dev-nvme-0"),
        at: 1_780_000_089 * SECOND,
        method: DestructMethod::Disintegrate,
        operator: spec().operator,
        supervisor: None,
        manifest_ref: Some("m-1".into()),
        photo_refs: vec!["photo://1".into()],
        notes: Some("bricked".into()),
        station_id: None,
    }));
    let c = Certificate::from_job(
        &job,
        issuer(&key),
        ValidationBlock { validated: false, media_class: "ssd-nvme".into(), validation_ref: None, validation_expires: None },
        MediaStatus { operational: true, damaged: false, notes: None },
        false,
        "urn:uuid:1".into(),
        0,
    )
    .unwrap();
    assert_eq!(c.activities, job.activities);
    match &c.activities[2] {
        ActivitySummary::Erasure(e) => {
            assert_eq!(e.id, "erasure-0");
            assert_eq!(e.started_at, Some(1_780_000_001 * SECOND));
            assert_eq!(e.station_id.as_deref(), Some("bench-1"));
        }
        other => panic!("expected an erasure, got {other:?}"),
    }
    match &c.activities[3] {
        ActivitySummary::Verification(v) => assert_eq!(v.erasure_event_id, "erasure-0"),
        other => panic!("expected a read-back, got {other:?}"),
    }
}

#[test]
fn co_sign_adds_supervisor_signature_that_verifies_independently() {
    let station_key = SigningKey::generate();
    let supervisor_key = SigningKey::generate();
    let mut signed = sign(build_cert(&station_key, false), &station_key);
    verify(&signed, &station_key).unwrap();

    let bytes = canonical(&signed.certificate);
    let supervisor = OperatorRef {
        id: "sup-1".into(),
        display_name: "Sandra Supervisor".into(),
        email: "sandra@example.com".into(),
    };
    co_sign_at(&mut signed, &bytes, &supervisor_key, CoSignerRole::Supervisor, supervisor.clone(), Some("m-1".into()), 7);

    assert_eq!(signed.co_signatures.len(), 1);
    assert_eq!(signed.co_signatures[0].role, CoSignerRole::Supervisor);
    assert_eq!(signed.co_signatures[0].manifest_ref.as_deref(), Some("m-1"));
    assert_eq!(signed.co_signatures[0].signer, supervisor);
    assert_eq!(signed.co_signatures[0].signed_at, 7);

    let ids = verify_co_signatures(&signed, &bytes, &[supervisor_key.verifying_key()]).unwrap();
    assert_eq!(ids, vec![supervisor_key.verifying_key().public_key_id()]);
    // The primary signature still verifies, and only under the station key.
    verify(&signed, &station_key).unwrap();
    assert!(verify_co_signatures(&signed, &bytes, &[station_key.verifying_key()]).is_err());
}
