use tauri_plugins::config::{NetWatcherConfig, ReachabilityTargetConfig};
use tauri_plugins::error::{Error, ErrorCode};
use tauri_plugins::internet::RefreshStep;
use tauri_plugins::models::{
    InterfaceAddresses, InterfaceStatus, InterfaceType, InternetSnapshot, InternetStatus,
    NetWatcherSnapshot, NetworkInterface, NetworkSnapshot, OverallState, ProbePhases, ProbeResult,
    ProbeStatus, ReachabilityStatus, TargetQualityState, UtcTime,
};
use tauri_plugins::schedule::TargetScheduleMode;
use tauri_plugins::session::{start_request, stop_request, WatcherSession};
use tauri_plugins::snapshot::build_snapshot;
use tauri_plugins::watcher::{network_fields_changed, WatcherWake};

/// A wall-clock time given in milliseconds since the Unix epoch.
fn at(ms: i64) -> UtcTime {
    UtcTime { secs: ms.div_euclid(1_000), nanos: (ms.rem_euclid(1_000) * 1_000_000) as u32 }
}

fn config() -> NetWatcherConfig {
    NetWatcherConfig {
        targets: vec![
            ReachabilityTargetConfig { id: "api".to_string(), url: "https://api.example.com/health".to_string() },
            ReachabilityTargetConfig { id: "cdn".to_string(), url: "http://cdn.example.com/ping".to_string() },
        ],
        ..Default::default()
    }
}

fn wifi() -> NetworkSnapshot {
    let mut network = NetworkSnapshot::default();
    network.primary_interface_id = Some("en0".to_string());
    network.interfaces.push(NetworkInterface {
        id: "en0".to_string(),
        name: "en0".to_string(),
        display_name: "en0".to_string(),
        interface_type: InterfaceType::Wifi,
        status: InterfaceStatus::Up,
        is_primary: true,
        addresses: InterfaceAddresses { ipv4: vec!["192.168.1.20".to_string()], ipv6: Vec::new(), mac: None },
        gateway: None,
        dns_servers: Vec::new(),
    });
    network
}

fn available_internet() -> InternetSnapshot {
    let mut internet = InternetSnapshot::unchecked();
    internet.status = InternetStatus::Available;
    internet.verified = true;
    internet.reason = "internet_probe_succeeded".to_string();
    internet
}

fn probe(status: ProbeStatus, at_ms: i64) -> ProbeResult {
    ProbeResult {
        id: format!("probe_{at_ms}"),
        status,
        started_at: at(at_ms),
        ended_at: at(at_ms),
        duration_ms: 40,
        phases: ProbePhases::default(),
        http: None,
        error: None,
    }
}

#[test]
fn new_session_has_one_fresh_target_per_configured_target() {
    let session = WatcherSession::new(&config(), 500);

    let targets = session.targets();
    assert_eq!(targets.len(), 2);
    assert_eq!(targets[0].id, "api");
    assert_eq!(targets[1].target.url, "http://cdn.example.com/ping");
    assert_eq!(targets[0].schedule.mode(), TargetScheduleMode::Verifying);
    assert_eq!(targets[0].window.len(), 0);
    let reachability = session.reachability_config();
    assert_eq!((reachability.interval_ms, reachability.window_size, reachability.timeout_ms), (10_000, 20, 3_000));
    assert_eq!(session.prober().timeout_ms(), 3_000);
}

#[test]
fn first_read_and_changed_paths_reset_the_session() {
    let mut session = WatcherSession::new(&config(), 0);

    let first = session.observe_network(Ok(wifi()), 0);
    assert!(first.path_changed);
    assert_eq!(first.interface_available, Some(true));
    assert_eq!(first.state.overall, OverallState::Online);

    let same = session.observe_network(Ok(wifi()), 10);
    assert!(!same.path_changed);

    let mut other = wifi();
    other.primary_interface_id = Some("en1".to_string());
    let changed = session.observe_network(Ok(other), 20);
    assert!(changed.path_changed);
}

#[test]
fn failed_network_read_is_unknown_with_the_error_code() {
    let mut session = WatcherSession::new(&config(), 0);

    let observation = session.observe_network(Err(Error::internal("boom".to_string())), 0);

    assert_eq!(observation.interface_available, None);
    assert_eq!(observation.state.overall, OverallState::Unknown);
    assert_eq!(observation.state.reason, "network_snapshot_failed:internal_error");
    assert!(observation.network.interfaces.is_empty());
}

#[test]
fn no_interface_suspends_every_target_once() {
    let mut session = WatcherSession::new(&config(), 0);
    let observation = session.observe_network(Ok(NetworkSnapshot::default()), 0);
    assert_eq!(observation.interface_available, Some(false));

    let internet = match session.begin_internet_refresh(observation.interface_available, 0) {
        RefreshStep::Ready(internet) => internet,
        RefreshStep::CheckNeeded => panic!("no check without an interface"),
    };
    assert_eq!(internet.status, InternetStatus::Unavailable);

    let update = session.apply_internet(observation, internet, 0);

    assert!(update.targets_suspended);
    assert_eq!(update.newly_suspended_ids, vec!["api", "cdn"]);
    assert_eq!(update.state.internet, InternetStatus::Unavailable);
    assert!(session.due_targets(update.targets_suspended, 0).is_empty());
    let snapshots = session.target_snapshots();
    assert_eq!(snapshots[0].state.reason, "probe_suspended_network_unavailable");
    assert_eq!(snapshots[1].state.reachability, ReachabilityStatus::Unknown);

    let again = session.observe_network(Ok(NetworkSnapshot::default()), 5);
    let internet = match session.begin_internet_refresh(again.interface_available, 5) {
        RefreshStep::Ready(internet) => internet,
        RefreshStep::CheckNeeded => panic!("no check without an interface"),
    };
    let update = session.apply_internet(again, internet, 5);
    assert!(update.newly_suspended_ids.is_empty());
}

#[test]
fn available_internet_resumes_and_probes_every_target() {
    let mut session = WatcherSession::new(&config(), 0);
    let observation = session.observe_network(Ok(NetworkSnapshot::default()), 0);
    let internet = match session.begin_internet_refresh(observation.interface_available, 0) {
        RefreshStep::Ready(internet) => internet,
        RefreshStep::CheckNeeded => panic!("no check without an interface"),
    };
    let update = session.apply_internet(observation, internet, 0);
    assert!(session.due_targets(update.targets_suspended, 0).is_empty());

    let observation = session.observe_network(Ok(wifi()), 1_000);
    assert!(matches!(session.begin_internet_refresh(observation.interface_available, 1_000), RefreshStep::CheckNeeded));
    let internet = session.complete_internet_refresh(available_internet(), 1_000);
    let update = session.apply_internet(observation, internet, 1_000);

    assert!(!update.targets_suspended);
    assert_eq!(update.state.internet, InternetStatus::Available);
    assert_eq!(session.due_targets(update.targets_suspended, 1_000), vec![0, 1]);
    assert!(session.due_targets(update.targets_suspended, 1_000).len() <= 2);
    assert_eq!(session.targets()[0].schedule.mode(), TargetScheduleMode::Verifying);
}

#[test]
fn recorded_probes_fill_the_window_and_reschedule() {
    let mut session = WatcherSession::new(&config(), 0);
    let observation = session.observe_network(Ok(wifi()), 0);
    let _ = session.begin_internet_refresh(observation.interface_available, 0);
    let internet = session.complete_internet_refresh(available_internet(), 0);
    let update = session.apply_internet(observation, internet, 0);
    let due = session.due_targets(update.targets_suspended, 0);
    assert_eq!(due, vec![0, 1]);

    session.record_probe(0, probe(ProbeStatus::Success, 100), 100);
    session.record_probe(1, probe(ProbeStatus::Failed, 100), 100);

    let targets = session.targets();
    assert_eq!(targets[0].window.len(), 1);
    assert_eq!(targets[1].schedule.consecutive_failures(), 1);
    assert_eq!(targets[1].schedule.mode(), TargetScheduleMode::Suspect);
    let snapshots = session.target_snapshots();
    assert_eq!(snapshots[0].state.reachability, ReachabilityStatus::Reachable);
    assert_eq!(snapshots[1].state.reachability, ReachabilityStatus::Unreachable);
    assert_eq!(snapshots[0].current_probe.as_ref().unwrap().ended_at, at(100));

    // Nothing is due right after the probes; the failed target comes back first.
    assert!(session.due_targets(false, 100).is_empty());
    let wait = session.next_wake_in(Some(true), 100);
    assert!(wait > 0);
    assert!(wait <= 30_000);
}

#[test]
fn snapshots_built_from_a_cycle_report_network_changes() {
    let mut session = WatcherSession::new(&config(), 0);
    let previous = NetWatcherSnapshot::initial_with_config("0.1.0", &config(), "linux");
    let observation = session.observe_network(Ok(wifi()), 0);
    let _ = session.begin_internet_refresh(observation.interface_available, 0);
    let internet = session.complete_internet_refresh(available_internet(), 0);
    let update = session.apply_internet(observation, internet, 0);

    let next = build_snapshot(&previous, session.snapshot_input(&update), "linux", "0.1.0");

    assert_eq!(next.state.overall, OverallState::Online);
    assert_eq!(next.reachability.targets.len(), 2);
    assert!(next.changes.has_changes);
    assert!(network_fields_changed(&next.changes.changed_fields));
}

#[test]
fn wakes_force_checks_or_stop() {
    let mut session = WatcherSession::new(&config(), 0);
    let observation = session.observe_network(Ok(wifi()), 0);
    let _ = session.begin_internet_refresh(observation.interface_available, 0);
    let internet = session.complete_internet_refresh(available_internet(), 0);
    let update = session.apply_internet(observation, internet, 0);
    assert_eq!(session.due_targets(update.targets_suspended, 0).len(), 2);
    assert!(session.due_targets(false, 0).len() == 2);

    assert!(session.on_wake(WatcherWake::Interval));
    assert!(session.on_wake(WatcherWake::SystemNetworkChanged));
    assert_eq!(session.due_targets(false, 0), vec![0, 1]);
    assert!(!session.on_wake(WatcherWake::Stop));
}

#[test]
fn start_and_stop_requests() {
    let err = start_request(true, &config()).unwrap_err();
    assert_eq!(err.code, ErrorCode::AlreadyWatching);
    start_request(false, &config()).unwrap();
    let mut bad = config();
    bad.interval_ms = 10;
    assert_eq!(start_request(false, &bad).unwrap_err().code, ErrorCode::InvalidConfig);

    stop_request(true).unwrap();
    assert_eq!(stop_request(false).unwrap_err().code, ErrorCode::NotWatching);
}

#[test]
fn suspended_targets_are_reported_unknown_in_every_snapshot_input() {
    let mut session = WatcherSession::new(&config(), 0);
    let observation = session.observe_network(Ok(wifi()), 0);
    let _ = session.begin_internet_refresh(observation.interface_available, 0);
    let internet = session.complete_internet_refresh(available_internet(), 0);
    let update = session.apply_internet(observation, internet, 0);
    let _ = session.due_targets(update.targets_suspended, 0);
    session.record_probe(0, probe(ProbeStatus::Success, 100), 100);

    let observation = session.observe_network(Ok(NetworkSnapshot::default()), 200);
    let internet = match session.begin_internet_refresh(observation.interface_available, 200) {
        RefreshStep::Ready(internet) => internet,
        RefreshStep::CheckNeeded => panic!("no check without an interface"),
    };
    let update = session.apply_internet(observation, internet, 200);
    assert!(update.targets_suspended);

    let input = session.snapshot_input(&update);
    assert_eq!(input.network.internet.reason, "no_available_interface");
    assert_eq!(input.network.interfaces.len(), 0);
    for target in &input.reachability_targets {
        assert_eq!(target.state.reachability, ReachabilityStatus::Unknown);
        assert_eq!(target.state.quality, TargetQualityState::Unknown);
        assert_eq!(target.state.reason, "probe_suspended_network_unavailable");
    }
}

#[test]
fn unknown_interface_state_settles_internet_without_a_check() {
    let mut session = WatcherSession::new(&config(), 0);
    match session.begin_internet_refresh(None, 0) {
        RefreshStep::Ready(internet) => {
            assert_eq!(internet.status, InternetStatus::Unknown);
            assert_eq!(internet.reason, "network_snapshot_unavailable");
            assert!(!internet.verified);
            assert!(internet.active_probe.is_none());
        },
        RefreshStep::CheckNeeded => panic!("no check without an interface"),
    }
    assert!(session.internet().snapshot().checked_at.is_some());
    assert_eq!(session.internet().next_check_in(Some(true), 0), 0);
}

#[test]
fn snapshot_ids_are_prefixed_random_uuids() {
    let snapshot = NetWatcherSnapshot::initial_with_config("0.1.0", &config(), "linux");
    let id: Vec<char> = snapshot.meta.snapshot_id.chars().collect();
    assert_eq!(id.len(), 39);
    assert_eq!(&snapshot.meta.snapshot_id[..3], "nw_");
    for (i, c) in id[3..].iter().enumerate() {
        if i == 8 || i == 13 || i == 18 || i == 23 {
            assert_eq!(*c, '-');
        } else {
            assert!(c.is_ascii_digit() || ('a'..='f').contains(c));
        }
    }
    assert_eq!(id[3 + 14], '4');
    assert!(matches!(id[3 + 19], '8' | '9' | 'a' | 'b'));
}
