use tauri_plugins::config::{NetWatcherConfig, ReachabilityTargetConfig, StartWatchingOptions};
use tauri_plugins::internet::{
    apply_failure_policy, classify_macos_outcome, classify_macos_response, classify_platform_evidence,
    classify_windows_outcome, connectivity_hint, failed_platform_probe, reachability_hint,
    unavailable_without_interface, MacosProbeOutcome, NetworkConnectivityLevel, ReachabilityFlagSet,
    WindowsProbeOutcome,
    unknown_snapshot, InternetMonitor, INTERNET_FAILURE_THRESHOLD, INTERNET_RECOVERY_INTERVAL_MS,
};
use tauri_plugins::models::{
    InterfaceType, InternetHintLevel, InternetHintSource, InternetProbeResult, InternetProbeStatus, InternetSnapshot,
    InternetStatus, ProbeStatus, TargetQualityState,
};
use tauri_plugins::network::classify_interface;
use tauri_plugins::schedule::{TargetSchedule, TargetScheduleMode};

fn target(id: &str, url: &str) -> ReachabilityTargetConfig {
    ReachabilityTargetConfig { id: id.to_string(), url: url.to_string() }
}

#[test]
fn default_config_uses_core_defaults() {
    let config = NetWatcherConfig::default();

    assert!(!config.auto_start);
    assert!(config.targets.is_empty());
    assert_eq!(config.interval_ms, 10_000);
    assert_eq!(config.timeout_ms, 3_000);
}

#[test]
fn runtime_options_override_session_values_only() {
    let base = NetWatcherConfig::default();
    let options = StartWatchingOptions {
        targets: Some(vec![target("api", "https://api.example.com/health")]),
        interval_ms: Some(5_000),
        timeout_ms: Some(1_500),
    };

    let merged = base.with_runtime_options(options);

    assert_eq!(merged.targets.len(), 1);
    assert_eq!(merged.targets[0].id, "api");
    assert_eq!(merged.targets[0].url, "https://api.example.com/health");
    assert_eq!(merged.interval_ms, 5_000);
    assert_eq!(merged.timeout_ms, 1_500);
}

#[test]
fn accepts_empty_targets() {
    let config = NetWatcherConfig { targets: Vec::new(), ..Default::default() };

    config.validate().unwrap();
}

#[test]
fn rejects_duplicate_target_ids() {
    let config = NetWatcherConfig {
        targets: vec![
            target("api", "https://api.example.com/health"),
            target("api", "https://api-backup.example.com/health"),
        ],
        ..Default::default()
    };

    assert_eq!(config.validate().unwrap_err().code(), "invalid_config");
}

#[test]
fn invalid_runtime_values_are_rejected() {
    let options = StartWatchingOptions {
        targets: Some(vec![target("api", "file:///tmp/health")]),
        interval_ms: Some(0),
        timeout_ms: Some(0),
    };

    let error = NetWatcherConfig::default().with_runtime_options(options).validate().unwrap_err();

    assert_eq!(error.code(), "invalid_config");
}

#[test]
fn rejects_malformed_target_url() {
    let config = NetWatcherConfig { targets: vec![target("api", "https://")], ..Default::default() };

    let error = config.validate().unwrap_err();

    assert_eq!(error.code(), "invalid_config");
}

#[test]
fn rejects_interval_values_outside_production_bounds() {
    let too_fast = NetWatcherConfig { interval_ms: 999, ..Default::default() };
    let too_slow = NetWatcherConfig { interval_ms: 3_600_001, ..Default::default() };

    assert_eq!(too_fast.validate().unwrap_err().code(), "invalid_config");
    assert_eq!(too_slow.validate().unwrap_err().code(), "invalid_config");
}

#[test]
fn rejects_timeout_values_outside_production_bounds() {
    let too_short = NetWatcherConfig { timeout_ms: 99, ..Default::default() };
    let too_long = NetWatcherConfig { timeout_ms: 60_001, ..Default::default() };
    let longer_than_interval = NetWatcherConfig { interval_ms: 1_000, timeout_ms: 1_001, ..Default::default() };

    assert_eq!(too_short.validate().unwrap_err().code(), "invalid_config");
    assert_eq!(too_long.validate().unwrap_err().code(), "invalid_config");
    assert_eq!(longer_than_interval.validate().unwrap_err().code(), "invalid_config");
}

#[test]
fn internal_defaults_are_available_to_runtime_only() {
    let config = NetWatcherConfig::default();

    assert_eq!(config.window_size(), 20);
    assert_eq!(config.degraded_failure_rate_bp(), 1_500);
    assert_eq!(config.degraded_p95_latency_ms(), 800);
    assert!(!config.include_mac_address());
}

#[test]
fn blank_target_ids_and_unsupported_schemes_are_rejected() {
    let blank = NetWatcherConfig { targets: vec![target("  ", "https://example.com")], ..Default::default() };
    assert_eq!(blank.validate().unwrap_err().code(), "invalid_config");
    let ftp = NetWatcherConfig { targets: vec![target("a", "ftp://example.com")], ..Default::default() };
    assert_eq!(ftp.validate().unwrap_err().code(), "invalid_config");
    let ok = NetWatcherConfig { targets: vec![target("a", "http://example.com/x")], ..Default::default() };
    assert!(ok.validate().is_ok());
}

fn probe(status: InternetProbeStatus, http_status: Option<u16>) -> InternetProbeResult {
    InternetProbeResult { status, duration_ms: 42, http_status, error: None }
}

#[test]
fn exact_active_probe_success_is_verified_internet() {
    let snapshot = classify_platform_evidence(
        InternetHintSource::WindowsNcsi,
        InternetHintLevel::InternetAccess,
        probe(InternetProbeStatus::Success, Some(200)),
        false,
    );

    assert_eq!(snapshot.status, InternetStatus::Available);
    assert!(snapshot.verified);
    assert_eq!(snapshot.reason, "internet_probe_succeeded");
}

#[test]
fn unexpected_content_is_captive_portal() {
    let snapshot = classify_platform_evidence(
        InternetHintSource::WindowsNcsi,
        InternetHintLevel::ConstrainedInternetAccess,
        probe(InternetProbeStatus::UnexpectedResponse, Some(200)),
        true,
    );

    assert_eq!(snapshot.status, InternetStatus::CaptivePortal);
    assert!(!snapshot.verified);
    assert!(snapshot.captive_portal);
}

#[test]
fn ncsi_internet_with_failed_active_probe_is_degraded() {
    let snapshot = classify_platform_evidence(
        InternetHintSource::WindowsNcsi,
        InternetHintLevel::InternetAccess,
        probe(InternetProbeStatus::Failed, None),
        false,
    );

    assert_eq!(snapshot.status, InternetStatus::Degraded);
    assert!(!snapshot.verified);
}

#[test]
fn local_access_with_failed_active_probe_is_unavailable() {
    let snapshot = classify_platform_evidence(
        InternetHintSource::WindowsNcsi,
        InternetHintLevel::LocalAccess,
        probe(InternetProbeStatus::Failed, None),
        false,
    );

    assert_eq!(snapshot.status, InternetStatus::Unavailable);
    assert!(!snapshot.verified);
}

#[test]
fn repeated_active_probe_failures_override_stale_ncsi_hint() {
    let failed_probe = || {
        classify_platform_evidence(
            InternetHintSource::WindowsNcsi,
            InternetHintLevel::InternetAccess,
            probe(InternetProbeStatus::Failed, None),
            false,
        )
    };
    let first = apply_failure_policy(&InternetSnapshot::unchecked(), failed_probe());
    let second = apply_failure_policy(&first, failed_probe());
    let third = apply_failure_policy(&second, failed_probe());

    assert_eq!(first.status, InternetStatus::Degraded);
    assert_eq!(second.status, InternetStatus::Degraded);
    assert_eq!(third.status, InternetStatus::Unavailable);
    assert_eq!(third.consecutive_failures, INTERNET_FAILURE_THRESHOLD);
    assert_eq!(third.reason, "internet_probe_failure_threshold_reached");
}

#[test]
fn unavailable_internet_uses_fast_recovery_retry() {
    let now = 100_000u64;
    let monitor = InternetMonitor::with_state(Some(now - INTERNET_RECOVERY_INTERVAL_MS), unavailable_without_interface());

    assert_eq!(monitor.next_check_in(Some(true), now), 0);
    assert!(monitor.is_due(now));
}

#[test]
fn persistent_unavailable_internet_uses_bounded_backoff() {
    let now = 100_000u64;
    let mut snapshot = unavailable_without_interface();
    snapshot.consecutive_failures = INTERNET_FAILURE_THRESHOLD + 2;
    let monitor = InternetMonitor::with_state(Some(now), snapshot);

    assert_eq!(monitor.check_interval(), 40_000);
}

#[test]
fn network_change_reset_is_immediately_due() {
    let now = 100_000u64;
    let mut monitor = InternetMonitor::with_state(
        Some(now),
        classify_platform_evidence(
            InternetHintSource::WindowsNcsi,
            InternetHintLevel::InternetAccess,
            probe(InternetProbeStatus::Success, Some(200)),
            false,
        ),
    );

    monitor.reset_for_network_change();

    assert_eq!(monitor.next_check_in(Some(true), now), 0);
    assert_eq!(monitor.snapshot().status, InternetStatus::Unknown);
}

#[test]
fn unsupported_platform_does_not_converge_unknown_to_unavailable() {
    let mut previous = InternetSnapshot::unchecked();

    for _ in 0..10 {
        previous = apply_failure_policy(&previous, unknown_snapshot("internet_check_unsupported"));
    }

    assert_eq!(previous.status, InternetStatus::Unknown);
    assert_eq!(previous.consecutive_failures, 0);
    assert_eq!(previous.reason, "internet_check_unsupported");
}

#[test]
fn macos_success_page_is_verified() {
    let (probe, captive_portal) = classify_macos_response(
        31,
        Some(200),
        Some("http://captive.apple.com/hotspot-detect.html".to_string()),
        b"<HTML><HEAD><TITLE>Success</TITLE></HEAD><BODY>Success</BODY></HTML>",
    );

    assert_eq!(probe.status, InternetProbeStatus::Success);
    assert!(!captive_portal);
}

#[test]
fn macos_redirected_success_response_is_captive_portal() {
    let (probe, captive_portal) = classify_macos_response(
        45,
        Some(200),
        Some("http://login.example.test/portal".to_string()),
        b"<html><body>Sign in</body></html>",
    );

    assert_eq!(probe.status, InternetProbeStatus::UnexpectedResponse);
    assert!(captive_portal);
    assert_eq!(probe.error.map(|error| error.code).as_deref(), Some("captive_portal_detected"));
}

#[test]
fn platform_classifier_preserves_macos_hint_source() {
    let snapshot = classify_platform_evidence(
        InternetHintSource::MacosReachability,
        InternetHintLevel::InternetAccess,
        probe(InternetProbeStatus::Success, Some(200)),
        false,
    );

    assert_eq!(snapshot.system_hint.source, InternetHintSource::MacosReachability);
    assert_eq!(snapshot.status, InternetStatus::Available);
}

#[test]
fn classifies_common_interface_names() {
    let wireless_name: String = ['\u{65e0}', '\u{7ebf}', '\u{7f51}', '\u{7edc}', '\u{8fde}', '\u{63a5}'].iter().collect();
    let ethernet_name: String = ['\u{4ee5}', '\u{592a}', '\u{7f51}'].iter().collect();
    let local_connection_name: String = ['\u{672c}', '\u{5730}', '\u{8fde}', '\u{63a5}'].iter().collect();

    assert_eq!(classify_interface("Wi-Fi"), InterfaceType::Wifi);
    assert_eq!(classify_interface("WLAN"), InterfaceType::Wifi);
    assert_eq!(classify_interface(&wireless_name), InterfaceType::Wifi);
    assert_eq!(classify_interface("en0"), InterfaceType::Wifi);
    assert_eq!(classify_interface("Ethernet"), InterfaceType::Ethernet);
    assert_eq!(classify_interface(&ethernet_name), InterfaceType::Ethernet);
    assert_eq!(classify_interface("Local Area Connection"), InterfaceType::Ethernet);
    assert_eq!(classify_interface(&local_connection_name), InterfaceType::Ethernet);
    assert_eq!(classify_interface("eth0"), InterfaceType::Ethernet);
    assert_eq!(classify_interface("utun0"), InterfaceType::Vpn);
    assert_eq!(classify_interface("Meta"), InterfaceType::Vpn);
    assert_eq!(classify_interface("Meta Tunnel"), InterfaceType::Vpn);
    assert_eq!(classify_interface("lo0"), InterfaceType::Loopback);
}

#[test]
fn unknown_names_and_loopback_forms() {
    assert_eq!(classify_interface("lo"), InterfaceType::Loopback);
    assert_eq!(classify_interface("lo0a"), InterfaceType::Unknown);
    assert_eq!(classify_interface("Loopback Pseudo-Interface 1"), InterfaceType::Loopback);
    assert_eq!(classify_interface("bridge0"), InterfaceType::Unknown);
}

#[test]
fn failure_schedule_moves_from_fast_confirmation_to_backoff() {
    let now = 1_000_000u64;
    let base = 30_000u64;
    let mut schedule = TargetSchedule::new(now);

    schedule.record_result("api", ProbeStatus::Failed, TargetQualityState::Unstable, base, now);
    assert_eq!(schedule.mode(), TargetScheduleMode::Suspect);
    assert_eq!(schedule.next_check_in(now), Some(3_000));

    schedule.record_result("api", ProbeStatus::Failed, TargetQualityState::Unstable, base, now);
    schedule.record_result("api", ProbeStatus::Failed, TargetQualityState::Unstable, base, now);
    assert_eq!(schedule.mode(), TargetScheduleMode::Unavailable);
    assert_eq!(schedule.next_check_in(now), Some(10_000));

    schedule.record_result("api", ProbeStatus::Failed, TargetQualityState::Unstable, base, now);
    assert_eq!(schedule.next_check_in(now), Some(20_000));
}

#[test]
fn failed_target_requires_one_fast_recovery_confirmation() {
    let now = 1_000_000u64;
    let base = 30_000u64;
    let mut schedule = TargetSchedule::new(now);
    schedule.record_result("api", ProbeStatus::Failed, TargetQualityState::Unstable, base, now);

    schedule.record_result("api", ProbeStatus::Success, TargetQualityState::Stable, base, now);
    assert_eq!(schedule.mode(), TargetScheduleMode::Recovering);
    assert_eq!(schedule.next_check_in(now), Some(3_000));

    schedule.record_result("api", ProbeStatus::Success, TargetQualityState::Stable, base, now);
    assert_eq!(schedule.mode(), TargetScheduleMode::Healthy);
    let next = schedule.next_check_in(now).unwrap();
    assert!((27_000..=33_000).contains(&next));
}

#[test]
fn reset_is_immediately_due_and_clears_suspension() {
    let now = 1_000_000u64;
    let mut schedule = TargetSchedule::new(now);
    schedule.suspend();
    assert!(schedule.next_check_in(now).is_none());

    schedule.reset(now);

    assert!(schedule.is_due(now));
    assert_eq!(schedule.mode(), TargetScheduleMode::Verifying);
}

#[test]
fn verified_internet_degrades_twice_before_it_is_cut_off() {
    let verified = classify_platform_evidence(
        InternetHintSource::WindowsNcsi,
        InternetHintLevel::InternetAccess,
        probe(InternetProbeStatus::Success, Some(200)),
        false,
    );
    let available = apply_failure_policy(&InternetSnapshot::unchecked(), verified);
    assert_eq!(available.status, InternetStatus::Available);
    assert_eq!(available.consecutive_failures, 0);
    let refused = || {
        classify_platform_evidence(
            InternetHintSource::WindowsNcsi,
            InternetHintLevel::LocalAccess,
            probe(InternetProbeStatus::Failed, None),
            false,
        )
    };

    let first = apply_failure_policy(&available, refused());
    let second = apply_failure_policy(&first, refused());
    let third = apply_failure_policy(&second, refused());

    assert_eq!((first.status, first.consecutive_failures), (InternetStatus::Degraded, 1));
    assert_eq!(first.reason, "internet_reverification_failed");
    assert_eq!((second.status, second.consecutive_failures), (InternetStatus::Degraded, 2));
    assert_eq!((third.status, third.consecutive_failures), (InternetStatus::Unavailable, 3));

    let again = classify_platform_evidence(
        InternetHintSource::WindowsNcsi,
        InternetHintLevel::InternetAccess,
        probe(InternetProbeStatus::Success, Some(200)),
        false,
    );
    let recovered = apply_failure_policy(&third, again);
    assert_eq!((recovered.status, recovered.consecutive_failures), (InternetStatus::Available, 0));
}

#[test]
fn windows_probe_accepts_expected_body_with_surrounding_whitespace() {
    let (probe, captive) = classify_windows_outcome(
        42,
        WindowsProbeOutcome::Response { status: 200, body: "  Microsoft Connect Test\n".to_string() },
    );
    assert_eq!(probe.status, InternetProbeStatus::Success);
    assert_eq!(probe.duration_ms, 42);
    assert_eq!(probe.http_status, Some(200));
    assert!(probe.error.is_none());
    assert!(!captive);
}

#[test]
fn windows_probe_reports_other_body_as_captive_portal() {
    let (probe, captive) = classify_windows_outcome(
        7,
        WindowsProbeOutcome::Response { status: 200, body: "<html>login</html>".to_string() },
    );
    assert_eq!(probe.status, InternetProbeStatus::UnexpectedResponse);
    assert!(captive);
    let error = probe.error.expect("error");
    assert_eq!(error.code, "captive_portal_detected");
    assert_eq!(error.message, "expected HTTP 200 with Microsoft Connect Test, received HTTP 200");
}

#[test]
fn windows_probe_reports_redirect_as_captive_portal() {
    let (probe, captive) =
        classify_windows_outcome(3, WindowsProbeOutcome::Response { status: 302, body: String::new() });
    assert!(captive);
    assert_eq!(probe.http_status, Some(302));
    assert_eq!(probe.error.expect("error").code, "captive_portal_detected");
}

#[test]
fn windows_probe_reports_server_error_as_unexpected_response() {
    let (probe, captive) =
        classify_windows_outcome(3, WindowsProbeOutcome::Response { status: 503, body: String::new() });
    assert!(!captive);
    assert_eq!(probe.status, InternetProbeStatus::UnexpectedResponse);
    let error = probe.error.expect("error");
    assert_eq!(error.code, "internet_unexpected_response");
    assert_eq!(error.message, "expected HTTP 200 with Microsoft Connect Test, received HTTP 503");
}

#[test]
fn windows_probe_failure_and_timeout_are_failed_probes() {
    let (failed, captive) =
        classify_windows_outcome(9, WindowsProbeOutcome::Failed { message: "dns error".to_string() });
    assert!(!captive);
    assert_eq!(failed.status, InternetProbeStatus::Failed);
    assert_eq!(failed.http_status, None);
    let error = failed.error.expect("error");
    assert_eq!(error.code, "internet_probe_failed");
    assert_eq!(error.message, "dns error");

    let (timed_out, captive) = classify_windows_outcome(5000, WindowsProbeOutcome::TimedOut);
    assert!(!captive);
    assert_eq!(timed_out.status, InternetProbeStatus::Failed);
    let error = timed_out.error.expect("error");
    assert_eq!(error.code, "internet_timeout");
    assert_eq!(error.message, "internet probe timed out after 5000ms");
}

#[test]
fn macos_outcome_with_success_page_is_success() {
    let (probe, captive) = classify_macos_outcome(
        12,
        MacosProbeOutcome::Completed {
            status: Some(200),
            final_url: Some("http://captive.apple.com/hotspot-detect.html".to_string()),
            body: b"<HTML><HEAD><TITLE>Success</TITLE></HEAD><BODY>Success</BODY></HTML>".to_vec(),
            error: None,
        },
    );
    assert_eq!(probe.status, InternetProbeStatus::Success);
    assert_eq!(probe.duration_ms, 12);
    assert!(!captive);
}

#[test]
fn macos_outcome_with_request_error_keeps_status_and_message() {
    let (probe, captive) = classify_macos_outcome(
        4,
        MacosProbeOutcome::Completed {
            status: Some(503),
            final_url: None,
            body: Vec::new(),
            error: Some("The network connection was lost.".to_string()),
        },
    );
    assert!(!captive);
    assert_eq!(probe.status, InternetProbeStatus::Failed);
    assert_eq!(probe.http_status, Some(503));
    let error = probe.error.expect("error");
    assert_eq!(error.code, "internet_probe_failed");
    assert_eq!(error.message, "The network connection was lost.");
}

#[test]
fn macos_outcome_cancelled_and_timed_out_are_failed_probes() {
    let (cancelled, captive) = classify_macos_outcome(8, MacosProbeOutcome::Cancelled);
    assert!(!captive);
    let error = cancelled.error.expect("error");
    assert_eq!(error.code, "internet_probe_cancelled");
    assert_eq!(error.message, "Apple probe completion channel closed");

    let (timed_out, _) = classify_macos_outcome(6000, MacosProbeOutcome::TimedOut);
    assert_eq!(timed_out.status, InternetProbeStatus::Failed);
    assert_eq!(timed_out.duration_ms, 6000);
    assert_eq!(timed_out.error.expect("error").code, "internet_timeout");
}

#[test]
fn failed_platform_probe_carries_code_and_message() {
    let (probe, captive) = failed_platform_probe(1, "internet_invalid_probe_url", "invalid Apple probe URL");
    assert!(!captive);
    assert_eq!(probe.status, InternetProbeStatus::Failed);
    assert_eq!(probe.http_status, None);
    let error = probe.error.expect("error");
    assert_eq!(error.code, "internet_invalid_probe_url");
    assert_eq!(error.message, "invalid Apple probe URL");
}

fn flags(reachable: bool, intervention: bool, required: bool, on_demand: bool, on_traffic: bool) -> ReachabilityFlagSet {
    ReachabilityFlagSet {
        reachable,
        intervention_required: intervention,
        connection_required: required,
        connection_on_demand: on_demand,
        connection_on_traffic: on_traffic,
    }
}

#[test]
fn reachability_flags_map_to_system_hints() {
    assert_eq!(reachability_hint(None), InternetHintLevel::Unknown);
    assert_eq!(reachability_hint(Some(flags(false, true, true, false, false))), InternetHintLevel::NoConnectivity);
    assert_eq!(
        reachability_hint(Some(flags(true, true, true, false, false))),
        InternetHintLevel::ConstrainedInternetAccess
    );
    assert_eq!(reachability_hint(Some(flags(true, false, true, false, false))), InternetHintLevel::LocalAccess);
    assert_eq!(reachability_hint(Some(flags(true, false, true, true, false))), InternetHintLevel::InternetAccess);
    assert_eq!(reachability_hint(Some(flags(true, false, true, false, true))), InternetHintLevel::InternetAccess);
    assert_eq!(reachability_hint(Some(flags(true, false, false, false, false))), InternetHintLevel::InternetAccess);
}

#[test]
fn connectivity_levels_map_to_system_hints() {
    assert_eq!(connectivity_hint(None), InternetHintLevel::Unknown);
    assert_eq!(connectivity_hint(Some(NetworkConnectivityLevel::NoConnectivity)), InternetHintLevel::NoConnectivity);
    assert_eq!(connectivity_hint(Some(NetworkConnectivityLevel::LocalAccess)), InternetHintLevel::LocalAccess);
    assert_eq!(
        connectivity_hint(Some(NetworkConnectivityLevel::ConstrainedInternetAccess)),
        InternetHintLevel::ConstrainedInternetAccess
    );
    assert_eq!(connectivity_hint(Some(NetworkConnectivityLevel::InternetAccess)), InternetHintLevel::InternetAccess);
    assert_eq!(connectivity_hint(Some(NetworkConnectivityLevel::Other)), InternetHintLevel::Unknown);
}
