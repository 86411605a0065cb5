//! Outbound registrations and the daemon's own registrar. Times are milliseconds.
use siphon_ai::net::{IpAddr, SocketAddr};
use siphon_ai::sip::register::{
    refresh_delay, RegistrationEntry, RegistrationManager, RegistrationStatus, MIN_REFRESH_DELAY,
};
use siphon_ai::sip::registrar::{
    register_result, DigestAlgorithm, RegistrarAuth, RegistrarService, RegistrarSettings,
    DISCONNECT_GRACE,
};

fn addr(last: u8) -> SocketAddr {
    SocketAddr {
        ip: IpAddr::V4(0x0a00_0000 + last as u32),
        port: 5060,
    }
}

fn cfg(name: &str, last: u8, on_startup: bool) -> RegistrationEntry {
    RegistrationEntry {
        name: name.into(),
        server_addr: addr(last),
        register_on_startup: on_startup,
    }
}

#[test]
fn seed_creates_pending_states_for_register_on_startup() {
    let mut mgr = RegistrationManager::new();
    mgr.seed(&[cfg("trunk-a", 1, true)]);
    let s = mgr.get("trunk-a").unwrap();
    assert_eq!(s.status, RegistrationStatus::Pending);
    assert_eq!(s.server_addr.port, 5060);
    assert!(s.last_attempt_at.is_none());
    assert!(s.expires_at.is_none());
}

#[test]
fn seed_creates_disabled_state_when_register_on_startup_false() {
    let mut mgr = RegistrationManager::new();
    mgr.seed(&[cfg("trunk-b", 2, false)]);
    let s = mgr.get("trunk-b").unwrap();
    assert_eq!(s.status, RegistrationStatus::Disabled);
}

#[test]
fn resolve_source_matches_registrar_addr() {
    let mut mgr = RegistrationManager::new();
    mgr.seed(&[cfg("trunk-a", 1, true), cfg("trunk-b", 2, true)]);
    assert_eq!(mgr.resolve_source(addr(1)).as_deref(), Some("trunk-a"));
    assert_eq!(mgr.resolve_source(addr(2)).as_deref(), Some("trunk-b"));
    assert!(mgr.resolve_source(addr(99)).is_none());
}

#[test]
fn set_status_records_last_attempt_and_clears_expires_on_failure() {
    let mut mgr = RegistrationManager::new();
    mgr.seed(&[cfg("t", 1, true)]);
    let now = 1_000_000;
    assert!(mgr.set_status(
        "t",
        RegistrationStatus::Registered,
        None,
        Some(now + 3_600_000),
        now,
    ));
    let s = mgr.get("t").unwrap();
    assert_eq!(s.status, RegistrationStatus::Registered);
    assert!(s.expires_at.is_some());
    assert!(s.last_attempt_at.is_some());

    assert!(mgr.set_status(
        "t",
        RegistrationStatus::Failed,
        Some("403 Forbidden".into()),
        // Even if an expiry is passed, it is cleared on failure.
        Some(now + 3_600_000),
        now + 1,
    ));
    let s = mgr.get("t").unwrap();
    assert_eq!(s.status, RegistrationStatus::Failed);
    assert!(
        s.expires_at.is_none(),
        "expires_at must be cleared on failure"
    );
    assert_eq!(s.last_error.as_deref(), Some("403 Forbidden"));
    assert_eq!(s.last_attempt_at, Some(now + 1));
    assert!(!mgr.set_status("nobody", RegistrationStatus::Failed, None, None, now));
}

#[test]
fn snapshot_returns_all_seeded_states() {
    let mut mgr = RegistrationManager::new();
    mgr.seed(&[cfg("a", 1, true), cfg("b", 2, false)]);
    let mut names: Vec<String> = mgr.snapshot().into_iter().map(|s| s.name).collect();
    names.sort();
    assert_eq!(names, vec!["a".to_string(), "b".to_string()]);
}

#[test]
fn of_two_blocks_the_first_counts() {
    let mut mgr = RegistrationManager::new();
    mgr.seed(&[cfg("a", 1, true), cfg("a", 2, false), cfg("b", 1, true)]);
    assert_eq!(mgr.snapshot().len(), 2);
    assert_eq!(mgr.get("a").unwrap().server_addr, addr(1));
    assert_eq!(mgr.get("a").unwrap().status, RegistrationStatus::Pending);
    assert_eq!(mgr.resolve_source(addr(1)).as_deref(), Some("a"));
    assert_eq!(mgr.resolve_source(addr(2)).as_deref(), Some("a"));
}

#[test]
fn refresh_delay_subtracts_margin() {
    assert_eq!(refresh_delay(3_600_000), 3_540_000);
}

#[test]
fn refresh_delay_floors_at_min_for_short_expires() {
    // A grant of 30 s is shorter than the margin: the floor holds.
    assert_eq!(refresh_delay(30_000), MIN_REFRESH_DELAY);
    assert_eq!(refresh_delay(64_999), MIN_REFRESH_DELAY);
    assert_eq!(refresh_delay(65_001), 5_001);
    assert_eq!(refresh_delay(0), MIN_REFRESH_DELAY);
}

#[test]
fn status_labels() {
    assert_eq!(RegistrationStatus::Pending.as_str(), "pending");
    assert_eq!(RegistrationStatus::Registered.as_str(), "registered");
    assert_eq!(RegistrationStatus::Failed.as_str(), "failed");
    assert_eq!(RegistrationStatus::Disabled.as_str(), "disabled");
}

// ---- The registrar ----

const AOR: &str = "sip:browser@siphon.example.com";

fn settings(auth: Option<&str>) -> RegistrarSettings {
    RegistrarSettings {
        default_expires: 3_600_000,
        min_expires: 1_000,
        max_expires: 86_400_000,
        auth: auth.map(|a| RegistrarAuth {
            realm: "siphon.example".into(),
            algorithm: a.into(),
            users: vec![("browser".into(), "s3cret".into())],
        }),
    }
}

fn open_service() -> RegistrarService {
    RegistrarService::new(&settings(None))
        .unwrap()
        .with_disconnect_grace(200)
}

fn stored(list: &[&str]) -> Vec<String> {
    list.iter().map(|s| s.to_string()).collect()
}

#[test]
fn register_binds_and_expires_on_connection_loss() {
    let mut svc = open_service();
    let (code, label) = svc.handle_register(Some(200), Some(AOR.to_string()), true, Some(7));
    assert_eq!((code, label), (200, "ok"));
    assert_eq!(svc.connection_for(AOR, &vec![]), Some(7));

    // The connection dies.
    let closed = vec![7u64];
    let r = svc.sweep(&stored(&[AOR]), &closed, 1_000);
    assert_eq!(r.expired, 0, "grace window must hold the binding");
    assert!(
        svc.connection_for(AOR, &closed).is_none(),
        "closed writer must not be handed out even inside the grace"
    );
    let r = svc.sweep(&stored(&[AOR]), &closed, 1_250);
    assert_eq!(r.expired, 1, "grace elapsed; registration expires");
    assert_eq!(r.evict, vec![AOR.to_string()]);
    assert!(svc.bound_aors().is_empty());
}

#[test]
fn reconnect_re_register_replaces_the_binding_and_survives() {
    let mut svc = open_service();
    assert_eq!(svc.handle_register(Some(200), Some(AOR.to_string()), true, Some(1)).0, 200);
    // The old connection dies, a new one registers within the grace.
    let closed = vec![1u64];
    svc.sweep(&stored(&[AOR]), &closed, 1_000);
    assert_eq!(svc.handle_register(Some(200), Some(AOR.to_string()), true, Some(2)).0, 200);
    let r = svc.sweep(&stored(&[AOR]), &closed, 1_250);
    assert_eq!(r.expired, 0, "fresh connection must not be reaped");
    assert_eq!(svc.connection_for(AOR, &closed), Some(2));
}

#[test]
fn unregister_with_expires_zero_removes_the_binding() {
    let mut svc = open_service();
    assert_eq!(svc.handle_register(Some(200), Some(AOR.to_string()), true, Some(1)).0, 200);
    assert_eq!(svc.bound_aors().len(), 1);
    assert_eq!(svc.handle_register(Some(200), Some(AOR.to_string()), false, Some(1)).0, 200);
    assert!(svc.bound_aors().is_empty());
}

#[test]
fn a_challenge_binds_nothing() {
    let mut svc = RegistrarService::new(&settings(Some("MD5"))).unwrap();
    assert_eq!(svc.algorithm, Some(DigestAlgorithm::Md5));
    assert_eq!(svc.disconnect_grace, DISCONNECT_GRACE);
    let (code, label) = svc.handle_register(Some(401), Some(AOR.to_string()), false, None);
    assert_eq!((code, label), (401, "challenged"));
    assert!(svc.bound_aors().is_empty());
}

#[test]
fn udp_registration_has_no_connection_binding_but_registers() {
    let mut svc = open_service();
    let aor = "sip:phone@siphon.example.com";
    assert_eq!(svc.handle_register(Some(200), Some(aor.to_string()), true, None).0, 200);
    assert_eq!(svc.bound_aors().len(), 1);
    assert!(svc.connection_for(aor, &vec![]).is_none());
    // No connection to lose: only the clock applies.
    assert_eq!(svc.sweep(&stored(&[aor]), &vec![], 10_000).expired, 0);
    assert_eq!(svc.sweep(&stored(&[]), &vec![], 20_000).expired, 1);
    assert!(svc.bound_aors().is_empty());
}

#[test]
fn an_open_connection_clears_the_mark() {
    let mut svc = open_service();
    svc.handle_register(Some(200), Some(AOR.to_string()), true, Some(1));
    svc.sweep(&stored(&[AOR]), &vec![1], 1_000);
    assert_eq!(svc.connections[0].conn.dead_since, Some(1_000));
    svc.sweep(&stored(&[AOR]), &vec![], 1_100);
    assert_eq!(svc.connections[0].conn.dead_since, None);
    assert_eq!(svc.sweep(&stored(&[AOR]), &vec![1], 1_250).expired, 0);
}

#[test]
fn an_unknown_algorithm_is_refused() {
    let err = RegistrarService::new(&settings(Some("SHA-1"))).err().unwrap();
    assert_eq!(err, "[sip.auth].algorithm \"SHA-1\" unsupported");
    let s = RegistrarService::new(&settings(Some("SHA-256"))).ok().unwrap();
    assert_eq!(s.algorithm, Some(DigestAlgorithm::Sha256));
    let s = RegistrarService::new(&settings(Some("SHA-512"))).ok().unwrap();
    assert_eq!(s.algorithm, Some(DigestAlgorithm::Sha512));
}

#[test]
fn register_labels() {
    for (code, label) in [
        (Some(200), "ok"),
        (Some(401), "challenged"),
        (Some(403), "forbidden"),
        (Some(423), "interval_too_brief"),
        (Some(400), "rejected"),
        (None, "error"),
    ] {
        assert_eq!(register_result(code), label);
    }
    assert_eq!(open_service().handle_register(None, None, false, None), (500, "error"));
}

#[test]
fn one_address_does_not_disturb_another() {
    let other = "sip:phone@siphon.example.com";
    let mut svc = open_service();
    svc.handle_register(Some(200), Some(AOR.to_string()), true, Some(1));
    svc.handle_register(Some(200), Some(other.to_string()), true, Some(2));
    assert_eq!(svc.connection_for(AOR, &vec![]), Some(1));
    svc.handle_register(Some(200), Some(other.to_string()), false, Some(2));
    assert_eq!(svc.connection_for(AOR, &vec![]), Some(1));
    assert_eq!(svc.connection_for(other, &vec![]), None);
}

#[test]
fn an_address_is_listed_once_however_often_it_registers() {
    let mut svc = open_service();
    for connection in 1..=4 {
        svc.handle_register(Some(200), Some(AOR.to_string()), true, Some(connection));
    }
    assert_eq!(svc.bound_aors(), vec![AOR.to_string()]);
    let report = svc.sweep(&stored(&[AOR]), &vec![], 1_000);
    assert_eq!(report.expired, 0);
    assert_eq!(svc.bound_aors(), vec![AOR.to_string()]);
}
