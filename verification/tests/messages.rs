//! Operator-facing texts: errors, load problems and presets.

use wipestation::bay::BayId;
use wipestation::bay_build::{arma_4u_32, dock_2bay};
use wipestation::bay_validate::{check_loaded_topology, unknown_profile_message};
use wipestation::error::{backend_err, WipeError};
use wipestation::license::LicenseError;
use wipestation::license_chain::InstallProblem;
use wipestation::store::StoreError;

#[test]
fn engine_errors_read_as_sentences() {
    assert_eq!(WipeError::DeviceNotFound("dev-9".into()).message(), "device not found: dev-9");
    assert_eq!(
        WipeError::MethodUnsupported("OpalRevert".into()).message(),
        "method OpalRevert not supported by this device"
    );
    assert_eq!(WipeError::Aborted.message(), "operation aborted by operator");
    assert_eq!(backend_err("bus reset"), WipeError::Backend("bus reset".into()));
    assert_eq!(backend_err("bus reset").message(), "backend error: bus reset");
}

#[test]
fn store_errors_name_both_revisions() {
    assert_eq!(
        StoreError::RevisionConflict { stored: 7, sent: 6 }.message(),
        "configuration was changed by someone else (stored revision 7, you sent 6)"
    );
    assert_eq!(
        StoreError::Unavailable.message(),
        "no writable location for station configuration"
    );
}

#[test]
fn licence_errors_keep_tampering_distinct() {
    assert_eq!(
        LicenseError::Tampered("payload".into()).message(),
        "licence was tampered with: payload"
    );
    assert_eq!(
        LicenseError::UntrustedRoot("ed25519:x".into()).message(),
        "licence was signed by an untrusted root key: ed25519:x"
    );
}

#[test]
fn an_install_problem_says_what_to_do() {
    let p = InstallProblem::WrongInstanceKey { expected: "k1".into(), found: "k2".into() };
    assert_eq!(
        p.message(),
        "licence was issued to instance key k2, but this station's signing key is k1. A licence is bound to one key; reissue it for this station."
    );
    assert_eq!(
        InstallProblem::NotTrusted("bad".into()).message(),
        "licence did not verify: bad"
    );
}

#[test]
fn a_clean_loaded_topology_is_accepted() {
    assert_eq!(check_loaded_topology("/etc/t.json", &arma_4u_32()), Ok(()));
}

#[test]
fn a_loaded_topology_from_a_newer_schema_is_refused() {
    let mut t = dock_2bay();
    t.schema_version = 9;
    assert_eq!(
        check_loaded_topology("/etc/t.json", &t),
        Err("bay topology /etc/t.json declares schema_version 9, but this build understands 1".into())
    );
}

#[test]
fn a_loaded_topology_with_repeated_ids_names_them() {
    let mut t = dock_2bay();
    let first = t.enclosures[0].banks[0].bays[0].id.clone();
    t.enclosures[0].banks[0].bays[1].id = first.clone();
    assert_eq!(first, BayId::from(first.as_str()));
    assert_eq!(
        check_loaded_topology("/etc/t.json", &t),
        Err(format!("bay topology /etc/t.json has duplicate bay ids: {}", first.as_str()))
    );
}

#[test]
fn an_unknown_preset_lists_the_known_ones() {
    assert_eq!(
        unknown_profile_message("toaster"),
        "unknown bay profile `toaster` — known presets: arma-4u-32, dock-2bay, nvme-carrier-8"
    );
}
