//! Peer discovery records and lead election.

use wipestation::fleet::{
    advert_properties, current_lead, ensure_dot, id_from_fullname, is_lead, lead_after_change,
    lead_changed, peer_removed, peer_resolved, role_from_str, role_to_str, station_from_advert,
    FleetEvent, StationId, StationInfo, StationRole,
};

fn station(id: &str, started_at: i64) -> StationInfo {
    StationInfo {
        id: StationId::from(id),
        hostname: format!("{id}.local"),
        role: StationRole::Member,
        version: "0.2.0".into(),
        api_port: 8088,
        started_at,
        active_jobs: 0,
        last_seen: None,
    }
}

#[test]
fn the_earliest_started_station_leads() {
    let all = vec![station("b", 200), station("a", 300), station("c", 100)];
    assert_eq!(current_lead(&all), Some(StationId::from("c")));
    assert!(is_lead(&all, &StationId::from("c")));
    assert!(!is_lead(&all, &StationId::from("a")));
}

#[test]
fn a_start_time_tie_is_broken_by_the_smaller_id() {
    let all = vec![station("bench-2", 100), station("bench-1", 100)];
    assert_eq!(current_lead(&all), Some(StationId::from("bench-1")));
}

#[test]
fn every_station_elects_the_same_lead_whatever_order_it_sees_peers_in() {
    let one = vec![station("x", 5), station("y", 5), station("z", 1)];
    let two = vec![station("y", 5), station("z", 1), station("x", 5)];
    assert_eq!(current_lead(&one), current_lead(&two));
}

#[test]
fn an_isolated_station_leads_itself() {
    let alone = vec![station("solo", 42)];
    assert!(is_lead(&alone, &StationId::from("solo")));
    assert_eq!(current_lead(&[]), None);
    assert!(!is_lead(&[], &StationId::from("solo")));
}

#[test]
fn a_lead_change_is_reported_only_when_the_lead_differs() {
    let a = Some(StationId::from("a"));
    let b = Some(StationId::from("b"));
    assert!(!lead_changed(&a, &Some(StationId::from("a"))));
    assert!(lead_changed(&a, &b));
    assert!(lead_changed(&None, &a));
    assert!(!lead_changed(&None, &None));
}

#[test]
fn hostnames_are_placed_under_local() {
    assert_eq!(ensure_dot("bench"), "bench.local.");
    assert_eq!(ensure_dot("bench."), "bench.local.");
    assert_eq!(ensure_dot("bench.local"), "bench.local.");
    assert_eq!(ensure_dot("bench.local."), "bench.local.");
    assert_eq!(ensure_dot("bench.local.local"), "bench.local.");
}

#[test]
fn the_station_id_is_read_from_the_service_name() {
    assert_eq!(
        id_from_fullname("wipestation-bench-3._wipestation._tcp.local."),
        Some(StationId::from("bench-3"))
    );
    assert_eq!(id_from_fullname("printer._ipp._tcp.local."), None);
}

#[test]
fn roles_round_trip_through_their_text() {
    for r in [StationRole::Lead, StationRole::Member, StationRole::Console, StationRole::Hub] {
        assert_eq!(role_from_str(role_to_str(r)), r);
    }
    assert_eq!(role_from_str("anything else"), StationRole::Member);
}

#[test]
fn an_advert_carries_what_a_peer_needs() {
    let mut s = station("bench-9", -5);
    s.role = StationRole::Console;
    s.active_jobs = 3;
    let props = advert_properties(&s);
    let get = |k: &str| props.iter().find(|(key, _)| key == k).map(|(_, v)| v.clone());
    assert_eq!(get("id").as_deref(), Some("bench-9"));
    assert_eq!(get("role").as_deref(), Some("console"));
    assert_eq!(get("version").as_deref(), Some("0.2.0"));
    assert_eq!(get("port").as_deref(), Some("8088"));
    assert_eq!(get("started").as_deref(), Some("-5"));
    assert_eq!(get("active").as_deref(), Some("3"));
}

#[test]
fn a_peer_is_read_back_from_its_advert() {
    let peer = station_from_advert(
        Some("bench-4"),
        Some("lead"),
        None,
        Some("9000"),
        Some("1780000000"),
        Some("not a number"),
        8088,
        "bench-4.local.",
        1_780_000_100,
    )
    .expect("peer");
    assert_eq!(peer.id, StationId::from("bench-4"));
    assert_eq!(peer.role, StationRole::Lead);
    assert_eq!(peer.version, "0.0.0");
    assert_eq!(peer.api_port, 9000);
    assert_eq!(peer.started_at, 1_780_000_000);
    assert_eq!(peer.active_jobs, 0);
    assert_eq!(peer.hostname, "bench-4.local");
    assert_eq!(peer.last_seen, Some(1_780_000_100));
}

#[test]
fn an_advert_without_an_id_or_with_an_impossible_start_is_dropped() {
    assert!(station_from_advert(None, None, None, None, None, None, 8088, "h", 0).is_none());
    assert!(station_from_advert(
        Some("x"),
        None,
        None,
        None,
        Some("9223372036854775807"),
        None,
        8088,
        "h",
        0
    )
    .is_none());
}

#[test]
fn two_local_instances_discover_each_other() {
    let me = station("a", 100);
    let mut peers: Vec<StationInfo> = Vec::new();
    let ev = peer_resolved(&mut peers, &me.id, station("b", 50));
    assert_eq!(ev, Some(FleetEvent::PeerDiscovered(station("b", 50))));
    assert_eq!(peers.len(), 1);

    // A later advertisement from the same peer updates it in place.
    let mut busier = station("b", 50);
    busier.active_jobs = 2;
    let ev = peer_resolved(&mut peers, &me.id, busier);
    assert!(matches!(ev, Some(FleetEvent::PeerUpdated(ref s)) if s.active_jobs == 2));
    assert_eq!(peers.len(), 1);

    // Our own advertisement echoing back is not a peer.
    assert_eq!(peer_resolved(&mut peers, &me.id, station("a", 100)), None);
    assert_eq!(peers.len(), 1);

    let (lead, ev) = lead_after_change(&peers, &me, &None);
    assert_eq!(lead, Some(StationId::from("b")));
    assert_eq!(ev, Some(FleetEvent::LeadChanged(Some(StationId::from("b")))));
}

#[test]
fn lead_election_is_local_when_isolated() {
    let me = station("solo", 42);
    let peers: Vec<StationInfo> = Vec::new();
    let (lead, ev) = lead_after_change(&peers, &me, &Some(StationId::from("solo")));
    assert_eq!(lead, Some(StationId::from("solo")));
    assert_eq!(ev, None, "an unchanged lead is not announced again");
}

#[test]
fn a_withdrawn_peer_is_forgotten_and_the_lead_moves() {
    let me = station("a", 100);
    let mut peers = Vec::new();
    peer_resolved(&mut peers, &me.id, station("b", 50));
    assert_eq!(peer_removed(&mut peers, &StationId::from("b")), Some(FleetEvent::PeerLost(StationId::from("b"))));
    assert!(peers.is_empty());
    assert_eq!(peer_removed(&mut peers, &StationId::from("b")), None);
    let (lead, ev) = lead_after_change(&peers, &me, &Some(StationId::from("b")));
    assert_eq!(lead, Some(StationId::from("a")));
    assert_eq!(ev, Some(FleetEvent::LeadChanged(Some(StationId::from("a")))));
}
