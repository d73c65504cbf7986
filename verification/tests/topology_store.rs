//! Tiered station-configuration store.
//!
//! The interesting behaviour is the *degradation*: what a station does when it
//! cannot write, and whether it says so instead of quietly losing an
//! operator's work. Probing the filesystem is the caller's; detection is
//! handed the probe's outcome.

use wipestation::bay_build::{arma_4u_32, dock_2bay};
use wipestation::store::{
    detect_store, prepare_save, status_of, ControlPlaneStore, EphemeralStore, StoreConfig,
    StoreError, StoreTier,
};

const DEFAULT_PATH: &str = "/etc/wipestation/bay-topology.json";

// --- tier 2: control plane -------------------------------------------------

#[test]
fn control_plane_builds_a_station_keyed_endpoint() {
    let cp = ControlPlaneStore::new("https://hub.example.com/", "bench-3");
    assert_eq!(
        cp.endpoint(),
        "https://hub.example.com/api/stations/bench-3/bay-topology"
    );
}

#[test]
fn control_plane_reports_unavailable_rather_than_pretending_to_save() {
    // The seam must fail honestly while the hub is unbuilt: a stub that
    // silently succeeded would lose an operator's work.
    let cp = ControlPlaneStore::new("https://hub.example.com", "bench-3");
    assert!(cp.save(&dock_2bay()).is_err());
    assert!(cp.load().is_err());
}

// --- tier 4: ephemeral -----------------------------------------------------

#[test]
fn ephemeral_holds_config_for_this_boot_but_admits_it_wont_survive() {
    let mut store = EphemeralStore::new("Read-only root.", true);
    assert!(!store.tier().survives_reboot());

    let t = arma_4u_32();
    store.save(&t).unwrap();
    assert_eq!(store.load().unwrap().unwrap(), t);

    assert!(store.detail().contains("lost when this station reboots"));
}

#[test]
fn ephemeral_awaits_an_operator_decision_until_acknowledged() {
    // Losing a bay map is a decision the operator made, not a surprise they
    // discover at reboot.
    let mut store = EphemeralStore::new("Read-only root.", true);
    assert!(store.awaiting_decision());
    store.acknowledge();
    assert!(!store.awaiting_decision());
}

// --- detection -------------------------------------------------------------

#[test]
fn detection_picks_local_file_when_the_path_is_writable() {
    let store = detect_store(
        &StoreConfig {
            explicit_path: Some("/var/tmp/wipestation/bay-topology.json".into()),
            control_plane_url: None,
            station_id: "s1".into(),
        },
        DEFAULT_PATH,
        Ok(()),
    );
    assert_eq!(store.tier(), StoreTier::LocalFile);
    assert!(!store.awaiting_decision());
    assert_eq!(store.location(), "/var/tmp/wipestation/bay-topology.json");
}

#[test]
fn detection_falls_to_ephemeral_and_asks_when_nothing_can_persist() {
    // No writable path, no control plane: the station still works, but it
    // must raise the question rather than silently running ephemeral.
    let store = detect_store(
        &StoreConfig {
            explicit_path: Some("/proc/definitely/not/writable/x.json".into()),
            control_plane_url: None,
            station_id: "s1".into(),
        },
        DEFAULT_PATH,
        Err("read-only file system".into()),
    );
    assert_eq!(store.tier(), StoreTier::Ephemeral);
    assert!(
        store.awaiting_decision(),
        "operator must be prompted, not silently downgraded"
    );

    let status = status_of(&store);
    assert!(!status.survives_reboot);
    assert!(status.needs_operator_decision);
}

#[test]
fn an_unreachable_control_plane_degrades_to_ephemeral_and_names_the_endpoint() {
    let store = detect_store(
        &StoreConfig {
            explicit_path: Some("/proc/definitely/not/writable/x.json".into()),
            control_plane_url: Some("https://hub.example.com".into()),
            station_id: "s1".into(),
        },
        DEFAULT_PATH,
        Err("read-only file system".into()),
    );
    assert_eq!(store.tier(), StoreTier::Ephemeral);
    assert!(store.awaiting_decision());
    assert!(
        store.detail().contains("hub.example.com"),
        "the operator should be told which control plane failed, got: {}",
        store.detail()
    );
}

#[test]
fn detection_without_an_explicit_path_uses_the_default() {
    let store = detect_store(
        &StoreConfig {
            explicit_path: None,
            control_plane_url: None,
            station_id: "s1".into(),
        },
        DEFAULT_PATH,
        Ok(()),
    );
    assert_eq!(store.location(), DEFAULT_PATH);
}

#[test]
fn an_acknowledged_ephemeral_store_no_longer_asks() {
    let mut store = detect_store(
        &StoreConfig {
            explicit_path: None,
            control_plane_url: None,
            station_id: "s1".into(),
        },
        DEFAULT_PATH,
        Err("read-only file system".into()),
    );
    store.acknowledge();
    assert!(!status_of(&store).needs_operator_decision);
}

// --- revisions -------------------------------------------------------------

#[test]
fn an_accepted_save_bumps_the_revision() {
    let t = dock_2bay();
    let saved = prepare_save(Some(0), t).unwrap();
    assert_eq!(saved.revision, 1);
}

#[test]
fn a_save_against_a_stale_revision_is_refused() {
    let mut t = dock_2bay();
    t.revision = 3;
    match prepare_save(Some(5), t) {
        Err(StoreError::RevisionConflict { stored, sent }) => assert_eq!((stored, sent), (5, 3)),
        other => panic!("expected Conflict, got {other:?}"),
    }
}
