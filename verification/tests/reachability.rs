use tauri_plugins::config::{NetWatcherConfig, ReachabilityTargetConfig};
use tauri_plugins::error::Error;
use tauri_plugins::models::{
    InternetProbeResult, InternetProbeStatus, InternetStatus, LatencySummary, NetWatcherSnapshot,
    NetworkLayerState, NetworkSnapshot, OverallState, ProbeError, ProbePhases, ProbeResult,
    ProbeStatus, ProbeTarget, ProbeTargetType, QualityLayerState, QualitySummary,
    ReachabilityStatus, TargetQualityState, UtcTime,
};
use tauri_plugins::outside::parse_url;
use tauri_plugins::probe::{
    default_port_for_scheme, host_header, parse_status_code, request_target, response_outcome,
    status_line_received, HttpProber,
};
use tauri_plugins::quality::{calculate_score, evaluate_state, RollingWindow, StateConfig};
use tauri_plugins::schedule::TargetSchedule;
use tauri_plugins::snapshot::{changed_fields, changed_target_ids};
use tauri_plugins::watcher::{
    debounce_step, evaluate_network_state, reachability_target_snapshot,
    system_watcher_or_interval_only, wait_step, NetworkFingerprint, ReceiveOutcome, WaitStep,
    WatcherSignal, WatcherWake,
};

/// A wall-clock time given in milliseconds since the Unix epoch.
fn at(ms: i64) -> UtcTime {
    UtcTime { secs: ms.div_euclid(1_000), nanos: (ms.rem_euclid(1_000) * 1_000_000) as u32 }
}

// ---------------------------------------------------------------------------------------------
// Probes
// ---------------------------------------------------------------------------------------------

#[test]
fn host_header_brackets_default_port_ipv6_literal() {
    let url = parse_url("http://[::1]/health").unwrap();

    let header = host_header(&url).unwrap();

    assert_eq!(header, "[::1]");
}

#[test]
fn host_header_brackets_explicit_non_default_port_ipv6_literal() {
    let url = parse_url("http://[::1]:8080/health").unwrap();

    let header = host_header(&url).unwrap();

    assert_eq!(header, "[::1]:8080");
}

#[test]
fn host_header_includes_explicit_non_default_port_for_domain() {
    let url = parse_url("http://example.com:8080/health").unwrap();

    let header = host_header(&url).unwrap();

    assert_eq!(header, "example.com:8080");
}

fn probe_of_unusable_target(url: &str) -> ProbeResult {
    let target = ProbeTarget { target_type: ProbeTargetType::Http, url: url.to_string() };
    let prober = HttpProber::new(500);
    let error = prober.plan(&target).unwrap_err();
    prober.finish(at(1_000), at(1_001), 1, ProbePhases::default(), Some(Err(error)))
}

#[test]
fn quality_invalid_scheme_returns_failed_probe() {
    let result = probe_of_unusable_target("file:///tmp/health");

    assert_eq!(result.status, ProbeStatus::Failed);
    assert_eq!(result.error.unwrap().code, "invalid_config");
}

#[test]
fn probe_invalid_scheme_returns_failed_probe() {
    let result = probe_of_unusable_target("file:///tmp/health");

    assert_eq!(result.status, ProbeStatus::Failed);
    assert_eq!(result.error.unwrap().code, "invalid_config");
}

#[test]
fn unparsable_target_url_is_a_configuration_failure() {
    let result = probe_of_unusable_target("not a url");

    assert_eq!(result.status, ProbeStatus::Failed);
    let error = result.error.unwrap();
    assert_eq!(error.code, "invalid_config");
    assert_eq!(error.message, "relative URL without a base");
}

#[test]
fn plan_names_host_port_and_head_request() {
    let target = ProbeTarget {
        target_type: ProbeTargetType::Http,
        url: "https://api.example.com:8443/health?full=1".to_string(),
    };

    let plan = HttpProber::new(3_000).plan(&target).unwrap();

    assert_eq!(plan.host, "api.example.com");
    assert_eq!(plan.port, 8443);
    assert!(plan.use_tls);
    assert_eq!(
        plan.request,
        "HEAD /health?full=1 HTTP/1.1\r\nHost: api.example.com:8443\r\nConnection: close\r\nUser-Agent: tauri-plugin-net-watcher/0.1\r\n\r\n"
    );
}

#[test]
fn plan_uses_known_default_port_and_plain_http() {
    let target = ProbeTarget { target_type: ProbeTargetType::Http, url: "http://[::1]".to_string() };

    let plan = HttpProber::new(3_000).plan(&target).unwrap();

    assert_eq!(plan.host, "[::1]");
    assert_eq!(plan.port, 80);
    assert!(!plan.use_tls);
    assert!(plan.request.starts_with("HEAD / HTTP/1.1\r\nHost: [::1]\r\n"));
}

#[test]
fn request_target_keeps_path_and_query() {
    let url = parse_url("http://example.com/a/b?x=1&y=2").unwrap();

    assert_eq!(request_target(&url), "/a/b?x=1&y=2");
}

#[test]
fn default_ports_of_schemes() {
    assert_eq!(default_port_for_scheme("http"), Some(80));
    assert_eq!(default_port_for_scheme("https"), Some(443));
    assert_eq!(default_port_for_scheme("ftp"), None);
}

#[test]
fn status_code_is_the_second_word_of_the_first_line() {
    assert_eq!(parse_status_code(b"HTTP/1.1 204 No Content\r\nServer: x\r\n").unwrap(), 204);
    assert_eq!(parse_status_code(b"HTTP/1.0   301\tMoved\n").unwrap(), 301);
    assert_eq!(parse_status_code(b"HTTP/1.1 +200 OK").unwrap(), 200);
}

#[test]
fn malformed_status_lines_are_http_failures() {
    let empty = parse_status_code(b"").unwrap_err();
    assert_eq!(empty.code, "http_failed");
    assert_eq!(empty.message, "empty HTTP response");

    let missing = parse_status_code(b"HTTP/1.1\r\n200 OK\r\n").unwrap_err();
    assert_eq!(missing.message, "missing HTTP status code");

    let letters = parse_status_code(b"HTTP/1.1 2x0 OK\r\n").unwrap_err();
    assert_eq!(letters.message, "invalid HTTP status code: invalid digit found in string");

    let large = parse_status_code(b"HTTP/1.1 70000x OK\r\n").unwrap_err();
    assert_eq!(large.message, "invalid HTTP status code: number too large to fit in target type");

    let not_text = parse_status_code(&[0x48, 0xff, 0x0d, 0x0a]).unwrap_err();
    assert_eq!(not_text.code, "http_failed");
    assert!(not_text.message.starts_with("invalid HTTP response: "));
    assert!(not_text.message.len() > "invalid HTTP response: ".len());
}

#[test]
fn only_success_and_redirect_statuses_pass() {
    assert_eq!(response_outcome(b"HTTP/1.1 200 OK\r\n").unwrap(), 200);
    assert_eq!(response_outcome(b"HTTP/1.1 399 ?\r\n").unwrap(), 399);
    let error = response_outcome(b"HTTP/1.1 503 Busy\r\n").unwrap_err();
    assert_eq!(error.code, "http_status_error");
    assert_eq!(error.message, "unexpected HTTP status 503");
    let early = response_outcome(b"HTTP/1.1 199 Early\r\n").unwrap_err();
    assert_eq!(early.message, "unexpected HTTP status 199");
}

#[test]
fn reading_stops_at_a_line_ending_or_the_read_limit() {
    assert!(!status_line_received(b""));
    assert!(!status_line_received(b"HTTP/1.1 200 OK\r"));
    assert!(status_line_received(b"HTTP/1.1 200 OK\r\n"));
    assert!(status_line_received(&vec![b'a'; 8192]));
    assert!(!status_line_received(&vec![b'a'; 8191]));
}

#[test]
fn finished_probes_carry_outcome_and_fresh_id() {
    let prober = HttpProber::new(250);
    assert_eq!(prober.timeout_ms(), 250);

    let ok = prober.finish(at(10), at(20), 10, ProbePhases::default(), Some(Ok(204)));
    assert_eq!(ok.status, ProbeStatus::Success);
    assert_eq!(ok.http.unwrap().status_code, 204);
    assert!(ok.error.is_none());
    assert!(ok.id.starts_with("probe_"));
    assert_eq!(ok.id.len(), 42);
    assert_eq!((ok.started_at, ok.ended_at, ok.duration_ms), (at(10), at(20), 10));

    let timed_out = prober.finish(at(10), at(260), 250, ProbePhases::default(), None);
    assert_eq!(timed_out.status, ProbeStatus::Failed);
    assert!(timed_out.http.is_none());
    let error = timed_out.error.unwrap();
    assert_eq!(error.code, "http_timeout");
    assert_eq!(error.message, "probe timed out after 250ms");

    let again = prober.finish(at(10), at(20), 10, ProbePhases::default(), Some(Ok(204)));
    assert_ne!(ok.id, again.id);
}

// ---------------------------------------------------------------------------------------------
// Rolling windows
// ---------------------------------------------------------------------------------------------

fn probe(status: ProbeStatus, duration_ms: u64, reason: Option<&str>) -> ProbeResult {
    ProbeResult {
        id: format!("probe_{duration_ms}"),
        status,
        started_at: at(1_700_000_000_000),
        ended_at: at(1_700_000_000_000),
        duration_ms,
        phases: ProbePhases::default(),
        http: None,
        error: reason.map(|code| ProbeError { code: code.to_string(), message: code.to_string() }),
    }
}

fn failure_rate(summary: &QualitySummary) -> f64 {
    if summary.sample_count == 0 {
        0.0
    } else {
        summary.failure_count as f64 / summary.sample_count as f64
    }
}

fn check_failure_rate_latency_and_consecutive_failures() {
    let mut window = RollingWindow::new(4);

    window.push(probe(ProbeStatus::Success, 100, None));
    window.push(probe(ProbeStatus::Failed, 300, Some("tcp_timeout")));
    window.push(probe(ProbeStatus::Success, 200, None));
    window.push(probe(ProbeStatus::Failed, 400, Some("http_timeout")));

    let summary = window.summary();

    assert_eq!(summary.sample_count, 4);
    assert_eq!(summary.success_count, 2);
    assert_eq!(summary.failure_count, 2);
    assert_eq!(failure_rate(&summary), 0.5);
    assert_eq!(summary.latency_ms.avg, 150);
    assert_eq!(summary.latency_ms.min, 100);
    assert_eq!(summary.latency_ms.max, 200);
    assert_eq!(summary.consecutive_failures, 1);
    assert_eq!(summary.last_failure_reason.as_deref(), Some("http_timeout"));
}

fn check_drops_old_samples() {
    let mut window = RollingWindow::new(2);

    window.push(probe(ProbeStatus::Success, 100, None));
    window.push(probe(ProbeStatus::Success, 200, None));
    window.push(probe(ProbeStatus::Success, 300, None));

    let summary = window.summary();

    assert_eq!(summary.sample_count, 2);
    assert_eq!(summary.latency_ms.min, 200);
    assert_eq!(summary.latency_ms.max, 300);
}

fn check_large_latency_sum() {
    let mut window = RollingWindow::new(3);

    window.push(probe(ProbeStatus::Success, u64::MAX, None));
    window.push(probe(ProbeStatus::Success, u64::MAX, None));
    window.push(probe(ProbeStatus::Success, u64::MAX, None));

    let summary = window.summary();

    assert_eq!(summary.latency_ms.avg, u64::MAX);
    assert_eq!(summary.latency_ms.min, u64::MAX);
    assert_eq!(summary.latency_ms.max, u64::MAX);
    assert_eq!(summary.latency_ms.p95, u64::MAX);
}

fn check_large_jitter_sum() {
    let mut window = RollingWindow::new(3);

    window.push(probe(ProbeStatus::Success, 0, None));
    window.push(probe(ProbeStatus::Success, u64::MAX, None));
    window.push(probe(ProbeStatus::Success, 0, None));

    let summary = window.summary();

    assert_eq!(summary.jitter_ms, u64::MAX);
}

#[test]
fn quality_rolling_window_computes_failure_rate_latency_and_consecutive_failures() {
    check_failure_rate_latency_and_consecutive_failures();
}

#[test]
fn stats_rolling_window_computes_failure_rate_latency_and_consecutive_failures() {
    check_failure_rate_latency_and_consecutive_failures();
}

#[test]
fn quality_rolling_window_drops_old_samples() {
    check_drops_old_samples();
}

#[test]
fn stats_rolling_window_drops_old_samples() {
    check_drops_old_samples();
}

#[test]
fn quality_rolling_window_handles_large_latency_sum_without_overflow() {
    check_large_latency_sum();
}

#[test]
fn stats_rolling_window_handles_large_latency_sum_without_overflow() {
    check_large_latency_sum();
}

#[test]
fn quality_rolling_window_handles_large_jitter_sum_without_overflow() {
    check_large_jitter_sum();
}

#[test]
fn stats_rolling_window_handles_large_jitter_sum_without_overflow() {
    check_large_jitter_sum();
}

#[test]
fn zero_capacity_window_keeps_the_latest_sample() {
    let mut window = RollingWindow::new(0);

    window.push(probe(ProbeStatus::Success, 100, None));
    window.push(probe(ProbeStatus::Failed, 200, Some("dns_failed")));

    assert_eq!(window.len(), 1);
    assert_eq!(window.latest().unwrap().duration_ms, 200);
    let summary = window.summary();
    assert_eq!(summary.sample_count, 1);
    assert_eq!(summary.consecutive_failures, 1);
    assert_eq!(summary.last_success_at, None);
    assert_eq!(summary.last_failure_at, Some(at(1_700_000_000_000)));
}

// ---------------------------------------------------------------------------------------------
// State evaluation
// ---------------------------------------------------------------------------------------------

fn config() -> StateConfig {
    StateConfig { degraded_failure_rate_bp: 1_500, degraded_p95_latency_ms: 800, offline_consecutive_failures: 3 }
}

fn check_no_interface_is_offline() {
    let state = evaluate_state(false, &QualitySummary::default(), &config());

    assert_eq!(state.overall, OverallState::Offline);
    assert_eq!(state.network, NetworkLayerState::Disconnected);
    assert_eq!(state.reason, "no_available_interface");
}

fn check_consecutive_failures_are_local_only() {
    let summary = QualitySummary {
        sample_count: 3,
        failure_count: 3,
        consecutive_failures: 3,
        ..Default::default()
    };

    let state = evaluate_state(true, &summary, &config());

    assert_eq!(state.overall, OverallState::LocalOnly);
    assert_eq!(state.quality, QualityLayerState::Unreachable);
}

fn check_high_latency_is_degraded() {
    let summary = QualitySummary {
        sample_count: 20,
        success_count: 20,
        latency_ms: LatencySummary { avg: 400, min: 100, max: 1200, p95: 900 },
        ..Default::default()
    };

    let state = evaluate_state(true, &summary, &config());

    assert_eq!(state.overall, OverallState::Degraded);
    assert_eq!(state.quality, QualityLayerState::Unstable);
}

fn stable_summary() -> QualitySummary {
    QualitySummary {
        sample_count: 20,
        success_count: 20,
        latency_ms: LatencySummary { avg: 100, min: 80, max: 160, p95: 150 },
        jitter_ms: 20,
        ..Default::default()
    }
}

fn check_stable_summary_is_online() {
    let state = evaluate_state(true, &stable_summary(), &config());

    assert_eq!(state.overall, OverallState::Online);
    assert_eq!(state.quality, QualityLayerState::Stable);
    assert!(state.score > 80);
}

#[test]
fn quality_no_interface_is_offline() {
    check_no_interface_is_offline();
}

#[test]
fn state_no_interface_is_offline() {
    check_no_interface_is_offline();
}

#[test]
fn quality_consecutive_failures_are_local_only() {
    check_consecutive_failures_are_local_only();
}

#[test]
fn state_consecutive_failures_are_local_only() {
    check_consecutive_failures_are_local_only();
}

#[test]
fn quality_high_latency_is_degraded() {
    check_high_latency_is_degraded();
}

#[test]
fn state_high_latency_is_degraded() {
    check_high_latency_is_degraded();
}

#[test]
fn quality_stable_summary_is_online() {
    check_stable_summary_is_online();
}

#[test]
fn state_stable_summary_is_online() {
    check_stable_summary_is_online();
}

#[test]
fn extreme_consecutive_failures_do_not_overflow_score() {
    let summary = QualitySummary {
        sample_count: 20,
        failure_count: 20,
        latency_ms: LatencySummary { avg: u64::MAX, min: u64::MAX, max: u64::MAX, p95: u64::MAX },
        jitter_ms: u64::MAX,
        consecutive_failures: usize::MAX,
        ..Default::default()
    };

    let score = calculate_score(&summary);

    assert_eq!(score, 0);
}

#[test]
fn zero_thresholds_do_not_degrade_healthy_summary() {
    let config = StateConfig { degraded_failure_rate_bp: 0, degraded_p95_latency_ms: 0, offline_consecutive_failures: 0 };

    let state = evaluate_state(true, &stable_summary(), &config);

    assert_eq!(state.overall, OverallState::Online);
    assert_eq!(state.quality, QualityLayerState::Stable);
}

#[test]
fn empty_summary_with_interface_is_insufficient_data() {
    let state = evaluate_state(true, &QualitySummary::default(), &config());

    assert_eq!(state.overall, OverallState::Unknown);
    assert_eq!(state.network, NetworkLayerState::Connected);
    assert_eq!(state.score, 0);
    assert_eq!(state.reason, "insufficient_data");
}

#[test]
fn score_penalties_add_up() {
    // failures 1 of 4: round(15) = 15; p95 250 -> 2; jitter 50 -> 2; one trailing failure -> 10.
    let summary = QualitySummary {
        sample_count: 4,
        success_count: 3,
        failure_count: 1,
        latency_ms: LatencySummary { avg: 200, min: 100, max: 250, p95: 250 },
        jitter_ms: 50,
        consecutive_failures: 1,
        ..Default::default()
    };

    assert_eq!(calculate_score(&summary), 71);
}

// ---------------------------------------------------------------------------------------------
// Snapshots
// ---------------------------------------------------------------------------------------------

fn snapshot() -> NetWatcherSnapshot {
    let config = NetWatcherConfig {
        targets: vec![ReachabilityTargetConfig {
            id: "api".to_string(),
            url: "https://api.example.com/health".to_string(),
        }],
        ..Default::default()
    };

    NetWatcherSnapshot::initial_with_config("0.1.0", &config, "linux")
}

fn probe_with_id(id: &str, at_ms: i64) -> ProbeResult {
    ProbeResult {
        id: id.to_string(),
        status: ProbeStatus::Success,
        started_at: at(at_ms),
        ended_at: at(at_ms),
        duration_ms: 42,
        phases: ProbePhases::default(),
        http: None,
        error: None,
    }
}

fn fields_for(next: &NetWatcherSnapshot) -> Vec<String> {
    let previous = snapshot();

    changed_fields(&previous, next)
}

#[test]
fn changed_fields_reports_reachability_config_and_target() {
    let mut next = snapshot();
    next.reachability.config.interval_ms += 1;
    next.reachability.targets[0].target.url = "https://example.com/health".to_string();
    next.reachability.targets[0].current_probe = Some(probe_with_id("probe_1", 1_000));
    next.reachability.targets[0].state.reachability = ReachabilityStatus::Reachable;

    let fields = fields_for(&next);

    assert!(fields.contains(&"reachability.config.intervalMs".to_string()));
    assert!(fields.contains(&"reachability.targets".to_string()));
    assert_eq!(changed_target_ids(&snapshot().reachability.targets, &next.reachability.targets), vec!["api"]);
}

#[test]
fn changed_fields_ignores_probe_identity_and_timestamps() {
    let mut previous = snapshot();
    previous.reachability.targets[0].current_probe = Some(probe_with_id("probe_1", 1_000));
    let mut next = snapshot();
    next.reachability.targets[0].current_probe = Some(probe_with_id("probe_2", 2_000));

    let fields = changed_fields(&previous, &next);

    assert!(!fields.contains(&"reachability.targets".to_string()));
}

#[test]
fn changed_fields_reports_probe_semantic_changes() {
    let mut previous = snapshot();
    previous.reachability.targets[0].current_probe = Some(probe_with_id("probe_1", 1_000));
    let mut next = snapshot();
    let mut failed_probe = probe_with_id("probe_2", 1_000);
    failed_probe.status = ProbeStatus::Failed;
    failed_probe.error = Some(ProbeError { code: "http_timeout".to_string(), message: "timed out".to_string() });
    next.reachability.targets[0].current_probe = Some(failed_probe);

    let fields = changed_fields(&previous, &next);

    assert!(fields.contains(&"reachability.targets".to_string()));
}

#[test]
fn target_summary_changes_are_reported_as_target_changes() {
    let mut next = snapshot();
    next.reachability.targets[0].summary = QualitySummary {
        sample_count: 1,
        success_count: 1,
        last_success_at: Some(at(1_000)),
        ..Default::default()
    };

    let fields = fields_for(&next);

    assert_eq!(fields, vec!["reachability.targets"]);
}

#[test]
fn changed_fields_ignores_summary_timestamp_churn() {
    let summary = |ms: i64| QualitySummary {
        sample_count: 2,
        success_count: 2,
        last_success_at: Some(at(ms)),
        ..Default::default()
    };
    let mut previous = snapshot();
    previous.reachability.targets[0].summary = summary(1_000);
    let mut next = snapshot();
    next.reachability.targets[0].summary = summary(2_000);

    let fields = changed_fields(&previous, &next);

    assert!(fields.is_empty());
}

#[test]
fn changed_fields_keeps_state_field_precision() {
    let mut next = snapshot();
    next.state.overall = OverallState::Online;
    next.state.reason = "network_interface_available".to_string();

    let fields = fields_for(&next);

    assert!(fields.contains(&"state.overall".to_string()));
    assert!(fields.contains(&"state.reason".to_string()));
}

#[test]
fn internet_status_change_is_reported_precisely() {
    let mut next = snapshot();
    next.network.internet.status = InternetStatus::Available;
    next.network.internet.verified = true;
    next.network.internet.reason = "internet_probe_succeeded".to_string();
    next.state.internet = InternetStatus::Available;

    let fields = fields_for(&next);

    assert!(fields.contains(&"network.internet".to_string()));
    assert!(fields.contains(&"state.internet".to_string()));
    assert!(!fields.contains(&"network".to_string()));
}

#[test]
fn internet_probe_timing_churn_does_not_emit_change() {
    let active_probe = |duration_ms: u64| InternetProbeResult {
        status: InternetProbeStatus::Success,
        duration_ms,
        http_status: Some(200),
        error: None,
    };
    let mut previous = snapshot();
    previous.network.internet.checked_at = Some(at(1_000));
    previous.network.internet.active_probe = Some(active_probe(40));
    let mut next = snapshot();
    next.network.internet.checked_at = Some(at(2_000));
    next.network.internet.active_probe = Some(active_probe(80));

    let fields = changed_fields(&previous, &next);

    assert!(fields.is_empty());
}

#[test]
fn initial_snapshot_reflects_config() {
    let config = NetWatcherConfig {
        targets: vec![ReachabilityTargetConfig {
            id: "health".to_string(),
            url: "https://example.com/health".to_string(),
        }],
        interval_ms: 5_000,
        timeout_ms: 1_500,
        ..Default::default()
    };

    let snapshot = NetWatcherSnapshot::initial_with_config("0.1.0", &config, "linux");

    assert_eq!(snapshot.reachability.targets[0].target.url, "https://example.com/health");
    assert_eq!(snapshot.reachability.config.interval_ms, 5_000);
    assert_eq!(snapshot.reachability.config.timeout_ms, 1_500);
    assert_eq!(snapshot.reachability.config.window_size, config.window_size());
}

#[test]
fn default_snapshot_starts_unknown() {
    let snapshot = NetWatcherSnapshot::initial("0.1.0", "linux");

    assert_eq!(snapshot.state.overall, OverallState::Unknown);
    assert_eq!(snapshot.state.network, NetworkLayerState::Unknown);
    assert_eq!(snapshot.state.quality, QualityLayerState::Unknown);
    assert!(snapshot.reachability.targets.is_empty());
    assert!(snapshot.meta.snapshot_id.starts_with("nw_"));
    assert_eq!(snapshot.meta.plugin_version, "0.1.0");
}

// ---------------------------------------------------------------------------------------------
// The watcher's decisions
// ---------------------------------------------------------------------------------------------

#[test]
fn network_fingerprint_ignores_internet_probe_evidence() {
    let mut first = NetworkSnapshot::default();
    first.internet.status = InternetStatus::Available;
    let mut second = NetworkSnapshot::default();
    second.internet.status = InternetStatus::Unavailable;

    assert!(NetworkFingerprint::from_snapshot(&first) == NetworkFingerprint::from_snapshot(&second));
    assert!(NetworkFingerprint::from_snapshot(&first).same_path(&NetworkFingerprint::from_snapshot(&second)));
}

#[test]
fn fingerprint_sees_a_new_primary_interface() {
    let first = NetworkSnapshot::default();
    let mut second = NetworkSnapshot::default();
    second.primary_interface_id = Some("en0".to_string());

    assert!(!NetworkFingerprint::from_snapshot(&first).same_path(&NetworkFingerprint::from_snapshot(&second)));
}

#[test]
fn suspended_target_reports_unknown_without_service_failure_sample() {
    let mut schedule = TargetSchedule::new(1_000);
    schedule.suspend();
    let target = ProbeTarget { target_type: ProbeTargetType::Http, url: "https://api.example.com/health".to_string() };
    let window = RollingWindow::new(20);

    let snapshot = reachability_target_snapshot(&"api".to_string(), &target, &window, schedule.is_suspended(), &config());

    assert_eq!(snapshot.state.reachability, ReachabilityStatus::Unknown);
    assert_eq!(snapshot.state.quality, TargetQualityState::Unknown);
    assert_eq!(snapshot.state.reason, "probe_suspended_network_unavailable");
    assert_eq!(snapshot.summary.sample_count, 0);
}

#[test]
fn active_target_reports_latest_probe() {
    let target = ProbeTarget { target_type: ProbeTargetType::Http, url: "https://api.example.com/health".to_string() };
    let mut window = RollingWindow::new(20);
    window.push(probe(ProbeStatus::Success, 80, None));

    let snapshot = reachability_target_snapshot(&"api".to_string(), &target, &window, false, &config());

    assert_eq!(snapshot.id, "api");
    assert_eq!(snapshot.state.reachability, ReachabilityStatus::Reachable);
    assert_eq!(snapshot.state.quality, TargetQualityState::Stable);
    assert_eq!(snapshot.state.reason, "network_stable");
    assert_eq!(snapshot.current_probe.unwrap().duration_ms, 80);
}

#[test]
fn system_watcher_start_errors_fall_back_to_interval_only() {
    let watcher = system_watcher_or_interval_only::<(), Error>(Err(Error::internal("boom".to_string())));

    assert!(watcher.is_none());
}

#[test]
fn network_state_follows_interface_availability() {
    let up = evaluate_network_state(Some(true));
    assert_eq!((up.overall, up.network), (OverallState::Online, NetworkLayerState::Connected));
    let down = evaluate_network_state(Some(false));
    assert_eq!(down.reason, "no_available_interface");
    let unknown = evaluate_network_state(None);
    assert_eq!(unknown.overall, OverallState::Unknown);
}

#[test]
fn wait_for_next_wake_returns_system_network_change_before_interval() {
    let first = wait_step(ReceiveOutcome::Received(WatcherSignal::SystemNetworkChanged));
    assert_eq!(first, WaitStep::Debounce);
    let wake = debounce_step(ReceiveOutcome::TimedOut);

    assert_eq!(wake, WaitStep::Wake(WatcherWake::SystemNetworkChanged));
}

#[test]
fn wait_for_next_wake_returns_stop_signal() {
    let wake = wait_step(ReceiveOutcome::Received(WatcherSignal::Stop));

    assert_eq!(wake, WaitStep::Wake(WatcherWake::Stop));
}

#[test]
fn system_network_events_are_coalesced_during_debounce_window() {
    assert_eq!(wait_step(ReceiveOutcome::Received(WatcherSignal::SystemNetworkChanged)), WaitStep::Debounce);
    assert_eq!(debounce_step(ReceiveOutcome::Received(WatcherSignal::SystemNetworkChanged)), WaitStep::Debounce);
    assert_eq!(debounce_step(ReceiveOutcome::Received(WatcherSignal::SystemNetworkChanged)), WaitStep::Debounce);

    let wake = debounce_step(ReceiveOutcome::TimedOut);

    assert_eq!(wake, WaitStep::Wake(WatcherWake::SystemNetworkChanged));
}

#[test]
fn stop_signal_wins_during_system_event_debounce() {
    assert_eq!(wait_step(ReceiveOutcome::Received(WatcherSignal::SystemNetworkChanged)), WaitStep::Debounce);

    let wake = debounce_step(ReceiveOutcome::Received(WatcherSignal::Stop));

    assert_eq!(wake, WaitStep::Wake(WatcherWake::Stop));
}

#[test]
fn interval_elapses_without_signals_and_closed_channel_stops() {
    assert_eq!(wait_step(ReceiveOutcome::TimedOut), WaitStep::Wake(WatcherWake::Interval));
    assert_eq!(wait_step(ReceiveOutcome::Closed), WaitStep::Wake(WatcherWake::Stop));
    assert_eq!(debounce_step(ReceiveOutcome::Closed), WaitStep::Wake(WatcherWake::Stop));
}
