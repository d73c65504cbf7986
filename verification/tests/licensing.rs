//! The station's licensing state and what it tells the operator.

use wipestation::cert::SigningKey;
use wipestation::license::{
    AllowedMethods, Entitlements, Feature, LeaseState, LeaseStatus, LicenseError, Quota, Scope,
};
use wipestation::license_chain::{AttestationChain, VendorRoot};
use wipestation::license_station::{
    machine_fingerprint, HttpLicenseClient, LicenseContext, UnconfiguredAnchor,
};

const SECOND: i128 = 1_000_000_000;

fn days(n: i128) -> i128 {
    n * 86_400 * SECOND
}

fn now() -> i128 {
    1_780_000_000 * SECOND
}

fn entitlements(scope: Scope) -> Entitlements {
    Entitlements {
        customer_id: "cust-42".into(),
        customer_name: "Northwind ITAD".into(),
        quota: Quota::Count { erasures: 10 },
        scope,
        not_before: now() - days(30),
        not_after: now() + days(335),
        features: vec![Feature::EnterpriseMode],
        allowed_methods: AllowedMethods::All,
        machine_binding: None,
    }
}

fn chain(ent: Entitlements) -> AttestationChain {
    let root = VendorRoot::generate();
    let instance = SigningKey::generate();
    let body = root.license_body("lic-7", instance.public_key_id(), ent, now());
    let bytes = format!("{body:?}").into_bytes();
    AttestationChain::new(root.issue(body, &bytes))
}

#[test]
fn the_fingerprint_has_its_documented_form() {
    assert_eq!(machine_fingerprint("bench-1"), "mf1:418e5a1d34e505241de72fab");
}

#[test]
fn an_unlicensed_station_signs_evaluation_certificates() {
    let mut ctx = LicenseContext::unlicensed("bench-1", now());
    assert_eq!(ctx.fingerprint(), machine_fingerprint("bench-1"));
    assert!(ctx.entitlements().is_none());
    let d = ctx.signing_decision(now());
    assert!(d.evaluation);
    assert!(!d.attach_chain);
    assert_eq!(d.status, LeaseStatus::Unlicensed);
}

#[test]
fn a_licensed_station_signs_licensed_and_staples_its_chain() {
    let ent = entitlements(Scope::Site { site_id: "s".into() });
    let mut ctx = LicenseContext::licensed("bench-1", chain(ent), LeaseState::new(now()));
    let d = ctx.signing_decision(now() + days(1));
    assert!(!d.evaluation);
    assert!(d.attach_chain);
    assert_eq!(
        d.status,
        LeaseStatus::Valid { remaining_erasures: Some(10), days_remaining: 334 }
    );
    // The reading moved the watermark forward.
    assert_eq!(ctx.lease_state().time_watermark, now() + days(1));
}

#[test]
fn a_licence_for_another_machine_signs_evaluation() {
    let ent = entitlements(Scope::Machine { fingerprint: "mf1:theirs".into() });
    let mut ctx = LicenseContext::licensed("bench-1", chain(ent), LeaseState::new(now()));
    let d = ctx.signing_decision(now());
    assert!(d.evaluation);
    assert!(!d.attach_chain);
    assert!(matches!(d.status, LeaseStatus::WrongMachine { .. }));
}

#[test]
fn recorded_erasures_count_against_the_quota() {
    let ent = entitlements(Scope::Site { site_id: "s".into() });
    let mut ctx = LicenseContext::licensed("bench-1", chain(ent), LeaseState::new(now()));
    for _ in 0..10 {
        ctx.record_erasure();
    }
    assert_eq!(ctx.lease_state().erasures_used, 10);
    assert_eq!(
        ctx.status(now()),
        LeaseStatus::QuotaExhausted { used: 10, allowed: 10 }
    );
}

#[test]
fn a_rolled_back_reading_does_not_become_the_new_normal() {
    let mut ctx = LicenseContext::unlicensed("bench-1", now());
    ctx.observe_now(now() - days(5));
    assert_eq!(ctx.lease_state().time_watermark, now());
    let ent = entitlements(Scope::Site { site_id: "s".into() });
    let mut licensed = LicenseContext::licensed("bench-1", chain(ent), LeaseState::new(now()));
    let st = licensed.status(now() - days(5));
    assert_eq!(
        st,
        LeaseStatus::ClockRollback { watermark: now(), observed: now() - days(5) }
    );
    assert_eq!(licensed.lease_state().time_watermark, now());
}

#[test]
fn operator_messages_say_what_to_do() {
    assert_eq!(
        LeaseStatus::Valid { remaining_erasures: Some(60), days_remaining: 335 }.operator_message(),
        "Licensed - 60 erasures remaining, 335 days left"
    );
    assert_eq!(
        LeaseStatus::Valid { remaining_erasures: None, days_remaining: -2 }.operator_message(),
        "Licensed - unlimited, -2 days left"
    );
    assert_eq!(
        LeaseStatus::Expired { not_after: now() - days(1) }.operator_message(),
        "Licence expired on 2026-05-27. Certificates will be marked evaluation until it is renewed."
    );
    assert_eq!(
        LeaseStatus::NotYetValid { not_before: now() + days(2) }.operator_message(),
        "Licence is not valid until 2026-05-30."
    );
    assert_eq!(
        LeaseStatus::QuotaExhausted { used: 5, allowed: 5 }.operator_message(),
        "Licence quota used (5 of 5). Erasure still works; certificates will be marked evaluation."
    );
    assert_eq!(
        LeaseStatus::WrongMachine { expected: "mf1:a".into(), actual: "mf1:b".into() }.operator_message(),
        "Licence is bound to machine mf1:a, but this station is mf1:b."
    );
    assert_eq!(
        LeaseStatus::ClockRollback { watermark: now(), observed: now() - days(400) }.operator_message(),
        "System clock reads 2025-04-23 but this station has previously seen 2026-05-28. Time appears to have moved backwards; fix the clock to restore licensed signing."
    );
    assert!(LeaseStatus::Unlicensed.operator_message().contains("evaluation mode"));
}

#[test]
fn check_in_urls_are_keyed_by_licence() {
    let c = HttpLicenseClient::new("https://licensing.example.com//");
    assert_eq!(c.endpoint(), "https://licensing.example.com//");
    assert_eq!(
        c.activate_url("lic-1"),
        "https://licensing.example.com/api/licenses/lic-1/activate"
    );
    assert_eq!(
        c.checkin_url("lic-1"),
        "https://licensing.example.com/api/licenses/lic-1/checkin"
    );
}

#[test]
fn the_unbuilt_transport_and_anchor_fail_honestly() {
    let c = HttpLicenseClient::new("https://licensing.example.com");
    assert!(matches!(c.activate("lic-1", "mf1:x"), Err(LicenseError::Unreachable(_))));
    let a = UnconfiguredAnchor;
    assert!(matches!(a.anchor("00"), Err(LicenseError::Unsupported(_))));
    assert!(matches!(a.verify(), Err(LicenseError::Unsupported(_))));
    assert_eq!(a.network(), "none");
}
