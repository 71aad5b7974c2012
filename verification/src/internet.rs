use vstd::prelude::*;

use crate::models::{
    InternetHintLevel, InternetHintSource, InternetProbeResult, InternetProbeStatus,
    InternetSnapshot, InternetStatus, InternetSystemHint, ProbeError, internet_not_checked_reason, is_unchecked,
};
use crate::outside::{decode_utf8_lossy, now_utc, utf8_lossy};
use crate::text::{
    ascii_lower_seq, chars_of, contains_seq, contains_str, decimal, decimal_chars, equals_str,
    string_of, to_ascii_lowercase, trim, trim_seq,
};

verus! {

/// Interval between checks while the internet is available or behind a captive portal.
pub const INTERNET_CHECK_INTERVAL_MS: u64 = 30_000;
/// Interval between checks while the internet is not (yet) verified.
pub const INTERNET_RECOVERY_INTERVAL_MS: u64 = 3_000;
/// Consecutive failed checks after which the internet counts as unavailable.
pub const INTERNET_FAILURE_THRESHOLD: usize = 3;

pub open spec fn internet_backoff_ms(step: int) -> u64 {
    if step <= 0 {
        10_000
    } else if step == 1 {
        20_000
    } else if step == 2 {
        40_000
    } else {
        60_000
    }
}

/// What the failure policy does with a freshly classified snapshot `next`, given the previous one.
pub open spec fn failure_policy(previous: InternetSnapshot, next: InternetSnapshot, r: InternetSnapshot) -> bool {
    let failures = if previous.consecutive_failures == usize::MAX {
        usize::MAX
    } else {
        (previous.consecutive_failures + 1) as usize
    };
    if next.active_probe is None && next.system_hint.source == InternetHintSource::Unavailable {
        r == InternetSnapshot { consecutive_failures: 0, ..next }
    } else if next.verified {
        r == InternetSnapshot { consecutive_failures: 0, ..next }
    } else if next.status == InternetStatus::CaptivePortal {
        r == InternetSnapshot { consecutive_failures: failures, ..next }
    } else if failures >= INTERNET_FAILURE_THRESHOLD {
        &&& r.status == InternetStatus::Unavailable
        &&& r.reason@ == "internet_probe_failure_threshold_reached"@
        &&& r.consecutive_failures == failures
        &&& r.verified == next.verified && r.system_hint == next.system_hint
        &&& r.active_probe == next.active_probe && r.captive_portal == next.captive_portal
        &&& r.checked_at == next.checked_at
    } else if previous.status == InternetStatus::Available || previous.status == InternetStatus::Degraded {
        &&& r.status == InternetStatus::Degraded
        &&& r.reason@ == "internet_reverification_failed"@
        &&& r.consecutive_failures == failures
        &&& r.verified == next.verified && r.system_hint == next.system_hint
        &&& r.active_probe == next.active_probe && r.captive_portal == next.captive_portal
        &&& r.checked_at == next.checked_at
    } else {
        r == InternetSnapshot { consecutive_failures: failures, ..next }
    }
}

/// A check that counts as a failure: a probe or a hint was made, nothing was verified, and no
/// captive portal was seen.
pub open spec fn failed_check(next: InternetSnapshot) -> bool {
    &&& !(next.active_probe is None && next.system_hint.source == InternetHintSource::Unavailable)
    &&& !next.verified
    &&& next.status != InternetStatus::CaptivePortal
}

/// A verified internet is not dropped on one failed re-verification: the first two failures in a
/// row leave it degraded, and the third makes it unavailable.
pub proof fn lemma_failures_degrade_before_cutting_off(
    verified: InternetSnapshot,
    n1: InternetSnapshot,
    r1: InternetSnapshot,
    n2: InternetSnapshot,
    r2: InternetSnapshot,
    n3: InternetSnapshot,
    r3: InternetSnapshot,
)
    requires
        verified.status == InternetStatus::Available,
        verified.consecutive_failures == 0,
        failed_check(n1),
        failed_check(n2),
        failed_check(n3),
        failure_policy(verified, n1, r1),
        failure_policy(r1, n2, r2),
        failure_policy(r2, n3, r3),
    ensures
        r1.status == InternetStatus::Degraded && r1.consecutive_failures == 1,
        r2.status == InternetStatus::Degraded && r2.consecutive_failures == 2,
        r3.status == InternetStatus::Unavailable && r3.consecutive_failures == 3,
{
}

/// A verified check clears the count of failures, whatever came before.
pub proof fn lemma_verified_check_resets_failures(previous: InternetSnapshot, next: InternetSnapshot, r: InternetSnapshot)
    requires
        next.verified,
        failure_policy(previous, next, r),
    ensures
        r.consecutive_failures == 0,
        r.status == next.status,
        r.verified,
{
}

/// Counts unverified checks and downgrades the status after repeated failures.
pub fn apply_failure_policy(previous: &InternetSnapshot, next: InternetSnapshot) -> (r: InternetSnapshot)
    ensures
        failure_policy(*previous, next, r),
{
    let mut next = next;
    if next.active_probe.is_none() && next.system_hint.source == InternetHintSource::Unavailable {
        next.consecutive_failures = 0;
        return next;
    }
    if next.verified {
        next.consecutive_failures = 0;
        return next;
    }
    next.consecutive_failures = if previous.consecutive_failures == usize::MAX {
        usize::MAX
    } else {
        previous.consecutive_failures + 1
    };
    if next.status == InternetStatus::CaptivePortal {
        return next;
    }
    if next.consecutive_failures >= INTERNET_FAILURE_THRESHOLD {
        next.status = InternetStatus::Unavailable;
        next.reason = "internet_probe_failure_threshold_reached".to_owned();
        return next;
    }
    if previous.status == InternetStatus::Available || previous.status == InternetStatus::Degraded {
        next.status = InternetStatus::Degraded;
        next.reason = "internet_reverification_failed".to_owned();
    }
    next
}

/// `s` settles the internet state without a check: `status` and `reason`, unverified, no system
/// hint, no probe, no captive portal, no failures, stamped with the time it was made.
pub open spec fn settled_without_check(s: InternetSnapshot, status: InternetStatus, reason: Seq<char>) -> bool {
    &&& s.status == status
    &&& !s.verified
    &&& s.system_hint == InternetSystemHint::unavailable_spec()
    &&& s.active_probe is None
    &&& !s.captive_portal
    &&& s.checked_at is Some
    &&& s.consecutive_failures == 0
    &&& s.reason@ == reason
}

/// An unknown internet snapshot with `reason`, checked now.
pub fn unknown_snapshot(reason: &str) -> (r: InternetSnapshot)
    ensures
        r.status == InternetStatus::Unknown,
        !r.verified,
        r.system_hint == InternetSystemHint::unavailable_spec(),
        r.active_probe is None,
        !r.captive_portal,
        r.checked_at is Some,
        r.consecutive_failures == 0,
        r.reason@ == reason@,
{
    let mut s = InternetSnapshot::unchecked();
    s.reason = reason.to_owned();
    s.checked_at = Some(now_utc());
    s
}

/// The internet snapshot when no interface is available: unavailable, checked now.
pub fn unavailable_without_interface() -> (r: InternetSnapshot)
    ensures
        r.status == InternetStatus::Unavailable,
        !r.verified,
        r.system_hint == InternetSystemHint::unavailable_spec(),
        r.active_probe is None,
        !r.captive_portal,
        r.checked_at is Some,
        r.consecutive_failures == 0,
        r.reason@ == "no_available_interface"@,
{
    let mut s = InternetSnapshot::unchecked();
    s.status = InternetStatus::Unavailable;
    s.reason = "no_available_interface".to_owned();
    s.checked_at = Some(now_utc());
    s
}

/// Status, verification and reason that a probe result and hint give.
pub open spec fn evidence_verdict(level: InternetHintLevel, probe: InternetProbeStatus, captive_portal: bool) -> (
    InternetStatus,
    bool,
    Seq<char>,
) {
    match probe {
        InternetProbeStatus::Success => (InternetStatus::Available, true, "internet_probe_succeeded"@),
        InternetProbeStatus::UnexpectedResponse => if captive_portal {
            (InternetStatus::CaptivePortal, false, "captive_portal_detected"@)
        } else {
            (InternetStatus::Unavailable, false, "internet_unexpected_response"@)
        },
        InternetProbeStatus::Failed => if level == InternetHintLevel::InternetAccess || level
            == InternetHintLevel::ConstrainedInternetAccess {
            (InternetStatus::Degraded, false, "system_hint_available_but_active_probe_failed"@)
        } else {
            (InternetStatus::Unavailable, false, "internet_probe_failed"@)
        },
    }
}

/// Classifies the platform's evidence (system hint and active probe) into an internet snapshot.
pub fn classify_platform_evidence(
    hint_source: InternetHintSource,
    hint_level: InternetHintLevel,
    active_probe: InternetProbeResult,
    captive_portal: bool,
) -> (r: InternetSnapshot)
    ensures
        (r.status, r.verified, r.reason@) == evidence_verdict(hint_level, active_probe.status, captive_portal),
        r.system_hint == (InternetSystemHint { source: hint_source, level: hint_level }),
        r.active_probe == Some(active_probe),
        r.captive_portal == captive_portal,
        r.checked_at is Some,
        r.consecutive_failures == 0,
{
    let (status, verified, reason) = match active_probe.status {
        InternetProbeStatus::Success => (InternetStatus::Available, true, "internet_probe_succeeded"),
        InternetProbeStatus::UnexpectedResponse => if captive_portal {
            (InternetStatus::CaptivePortal, false, "captive_portal_detected")
        } else {
            (InternetStatus::Unavailable, false, "internet_unexpected_response")
        },
        InternetProbeStatus::Failed => if hint_level == InternetHintLevel::InternetAccess
            || hint_level == InternetHintLevel::ConstrainedInternetAccess {
            (InternetStatus::Degraded, false, "system_hint_available_but_active_probe_failed")
        } else {
            (InternetStatus::Unavailable, false, "internet_probe_failed")
        },
    };
    InternetSnapshot {
        status,
        verified,
        system_hint: InternetSystemHint { source: hint_source, level: hint_level },
        active_probe: Some(active_probe),
        captive_portal,
        checked_at: Some(now_utc()),
        consecutive_failures: 0,
        reason: reason.to_owned(),
    }
}

/// The page that Apple's captive-portal probe expects.
pub open spec fn apple_probe_url() -> Seq<char> {
    "http://captive.apple.com/hotspot-detect.html"@
}

/// The body of Apple's probe says success.
pub open spec fn apple_body_matches(body: Seq<u8>) -> bool {
    let text = ascii_lower_seq(utf8_lossy(body));
    contains_seq(text, "<body>success</body>"@) || trim_seq(text) == "success"@
}

pub open spec fn opt_seq(o: Option<String>) -> Option<Seq<char>> {
    match o {
        Some(s) => Some(s@),
        None => None,
    }
}

/// Classifies the answer to Apple's captive-portal probe: (probe result, captive portal).
pub open spec fn macos_verdict(http_status: Option<u16>, final_url: Option<Seq<char>>, body: Seq<u8>) -> (
    InternetProbeStatus,
    bool,
) {
    let url_matches = final_url == Some(apple_probe_url());
    if http_status == Some(200u16) && url_matches && apple_body_matches(body) {
        (InternetProbeStatus::Success, false)
    } else {
        let captive = match http_status {
            Some(code) => 200 <= code <= 399 && (!url_matches || !apple_body_matches(body)),
            None => false,
        };
        (InternetProbeStatus::UnexpectedResponse, captive)
    }
}

/// The message of an unexpected answer to Apple's probe.
pub open spec fn macos_unexpected_message(http_status: Option<u16>, final_url: Option<Seq<char>>) -> Seq<char> {
    "expected Apple captive probe success response, received HTTP "@ + match http_status {
        Some(code) => decimal(code as nat),
        None => "unknown"@,
    } + " from "@ + match final_url {
        Some(u) => u,
        None => "unknown URL"@,
    }
}

/// Classifies the answer to Apple's captive-portal probe.
pub fn classify_macos_response(
    duration_ms: u64,
    http_status: Option<u16>,
    final_url: Option<String>,
    body: &[u8],
) -> (r: (InternetProbeResult, bool))
    ensures
        (r.0.status, r.1) == macos_verdict(http_status, opt_seq(final_url), body@),
        r.0.duration_ms == duration_ms,
        r.0.http_status == http_status,
        r.0.status == InternetProbeStatus::Success ==> r.0.error is None,
        r.0.status != InternetProbeStatus::Success ==> (r.0.error matches Some(e) && e.code@ == (
            if r.1 { "captive_portal_detected"@ } else { "internet_unexpected_response"@ }
        ) && e.message@ == macos_unexpected_message(http_status, opt_seq(final_url))),
{
    let text = decode_utf8_lossy(body);
    let chars = chars_of(text.as_str());
    let normalized = to_ascii_lowercase(&chars);
    let trimmed = trim(&normalized);
    let body_matches = contains_str(&normalized, "<body>success</body>") || equals_str(&trimmed, "success");
    let url_matches = match &final_url {
        Some(url) => {
            let url_chars = chars_of(url.as_str());
            equals_str(&url_chars, "http://captive.apple.com/hotspot-detect.html")
        },
        None => false,
    };
    proof {
        assert(url_matches == (opt_seq(final_url) == Some(apple_probe_url())));
    }
    if http_status == Some(200u16) && url_matches && body_matches {
        return (
            InternetProbeResult {
                status: InternetProbeStatus::Success,
                duration_ms,
                http_status,
                error: None,
            },
            false,
        );
    }
    let captive_portal = match http_status {
        Some(code) => 200 <= code && code <= 399 && (!url_matches || !body_matches),
        None => false,
    };
    let mut message = chars_of("expected Apple captive probe success response, received HTTP ");
    let status_text = match http_status {
        Some(code) => decimal_chars(code as u64),
        None => chars_of("unknown"),
    };
    message.append(&mut status_text.clone());
    let mut from = chars_of(" from ");
    message.append(&mut from);
    let mut url_text = match &final_url {
        Some(url) => chars_of(url.as_str()),
        None => chars_of("unknown URL"),
    };
    message.append(&mut url_text);
    let code = if captive_portal { "captive_portal_detected" } else { "internet_unexpected_response" };
    (
        InternetProbeResult {
            status: InternetProbeStatus::UnexpectedResponse,
            duration_ms,
            http_status,
            error: Some(ProbeError::new(code, string_of(&message))),
        },
        captive_portal,
    )
}

/// A failed platform probe that took `duration_ms`: (probe result, no captive portal).
pub fn failed_platform_probe(duration_ms: u64, code: &str, message: &str) -> (r: (InternetProbeResult, bool))
    ensures
        r.0.status == InternetProbeStatus::Failed,
        r.0.duration_ms == duration_ms,
        r.0.http_status is None,
        r.0.error matches Some(e) && e.code@ == code@ && e.message@ == message@,
        !r.1,
{
    (
        InternetProbeResult {
            status: InternetProbeStatus::Failed,
            duration_ms,
            http_status: None,
            error: Some(ProbeError::new(code, message.to_owned())),
        },
        false,
    )
}

/// What Apple's captive-portal probe came back with.
#[derive(Debug)]
pub enum MacosProbeOutcome {
    /// The request completed: HTTP status, final URL and body where there were any, and the
    /// request's error message where it failed.
    Completed { status: Option<u16>, final_url: Option<String>, body: Vec<u8>, error: Option<String> },
    /// The completion handler was dropped before it answered.
    Cancelled,
    /// No answer within the probe's time limit.
    TimedOut,
}

/// Classifies the outcome of Apple's captive-portal probe: (probe result, captive portal).
pub fn classify_macos_outcome(duration_ms: u64, outcome: MacosProbeOutcome) -> (r: (InternetProbeResult, bool))
    ensures
        r.0.duration_ms == duration_ms,
        match outcome {
            MacosProbeOutcome::Completed { status, final_url, body, error } => match error {
                None => {
                    &&& (r.0.status, r.1) == macos_verdict(status, opt_seq(final_url), body@)
                    &&& r.0.http_status == status
                    &&& r.0.status == InternetProbeStatus::Success ==> r.0.error is None
                    &&& r.0.status != InternetProbeStatus::Success ==> (r.0.error matches Some(e) && e.code@ == (
                        if r.1 { "captive_portal_detected"@ } else { "internet_unexpected_response"@ }
                    ) && e.message@ == macos_unexpected_message(status, opt_seq(final_url)))
                },
                Some(message) => {
                    &&& r.0.status == InternetProbeStatus::Failed && r.0.http_status == status && !r.1
                    &&& r.0.error matches Some(e) && e.code@ == "internet_probe_failed"@ && e.message@ == message@
                },
            },
            MacosProbeOutcome::Cancelled => {
                &&& r.0.status == InternetProbeStatus::Failed && r.0.http_status is None && !r.1
                &&& r.0.error matches Some(e) && e.code@ == "internet_probe_cancelled"@
                    && e.message@ == "Apple probe completion channel closed"@
            },
            MacosProbeOutcome::TimedOut => {
                &&& r.0.status == InternetProbeStatus::Failed && r.0.http_status is None && !r.1
                &&& r.0.error matches Some(e) && e.code@ == "internet_timeout"@
                    && e.message@ == "internet probe timed out after 5000ms"@
            },
        },
{
    match outcome {
        MacosProbeOutcome::Completed { status, final_url, body, error } => match error {
            None => classify_macos_response(duration_ms, status, final_url, body.as_slice()),
            Some(message) => (
                InternetProbeResult {
                    status: InternetProbeStatus::Failed,
                    duration_ms,
                    http_status: status,
                    error: Some(ProbeError::new("internet_probe_failed", message)),
                },
                false,
            ),
        },
        MacosProbeOutcome::Cancelled => failed_platform_probe(
            duration_ms,
            "internet_probe_cancelled",
            "Apple probe completion channel closed",
        ),
        MacosProbeOutcome::TimedOut => failed_platform_probe(
            duration_ms,
            "internet_timeout",
            "internet probe timed out after 5000ms",
        ),
    }
}

/// The reachability flags that macOS reports for the probe host.
#[derive(Debug, Clone, Copy, PartialEq, Eq)]
pub struct ReachabilityFlagSet {
    pub reachable: bool,
    pub intervention_required: bool,
    pub connection_required: bool,
    pub connection_on_demand: bool,
    pub connection_on_traffic: bool,
}

/// The system hint that macOS reachability flags give.
pub open spec fn reachability_hint_spec(flags: Option<ReachabilityFlagSet>) -> InternetHintLevel {
    match flags {
        None => InternetHintLevel::Unknown,
        Some(f) => if !f.reachable {
            InternetHintLevel::NoConnectivity
        } else if f.intervention_required {
            InternetHintLevel::ConstrainedInternetAccess
        } else if f.connection_required && !(f.connection_on_demand || f.connection_on_traffic) {
            InternetHintLevel::LocalAccess
        } else {
            InternetHintLevel::InternetAccess
        },
    }
}

/// Reads macOS reachability flags as a system hint; `None` stands for flags that could not be read.
pub fn reachability_hint(flags: Option<ReachabilityFlagSet>) -> (h: InternetHintLevel)
    ensures
        h == reachability_hint_spec(flags),
{
    match flags {
        None => InternetHintLevel::Unknown,
        Some(f) => if !f.reachable {
            InternetHintLevel::NoConnectivity
        } else if f.intervention_required {
            InternetHintLevel::ConstrainedInternetAccess
        } else if f.connection_required && !(f.connection_on_demand || f.connection_on_traffic) {
            InternetHintLevel::LocalAccess
        } else {
            InternetHintLevel::InternetAccess
        },
    }
}

/// The connectivity level that Windows' network connectivity status indicator reports.
#[derive(Debug, Clone, Copy, PartialEq, Eq)]
pub enum NetworkConnectivityLevel {
    NoConnectivity,
    LocalAccess,
    ConstrainedInternetAccess,
    InternetAccess,
    /// A level this library does not know.
    Other,
}

/// Reads the Windows connectivity level of the internet profile as a system hint; `None`
/// stands for a profile or level that could not be read.
pub fn connectivity_hint(level: Option<NetworkConnectivityLevel>) -> (h: InternetHintLevel)
    ensures
        h == match level {
            Some(NetworkConnectivityLevel::NoConnectivity) => InternetHintLevel::NoConnectivity,
            Some(NetworkConnectivityLevel::LocalAccess) => InternetHintLevel::LocalAccess,
            Some(NetworkConnectivityLevel::ConstrainedInternetAccess) => InternetHintLevel::ConstrainedInternetAccess,
            Some(NetworkConnectivityLevel::InternetAccess) => InternetHintLevel::InternetAccess,
            _ => InternetHintLevel::Unknown,
        },
{
    match level {
        Some(NetworkConnectivityLevel::NoConnectivity) => InternetHintLevel::NoConnectivity,
        Some(NetworkConnectivityLevel::LocalAccess) => InternetHintLevel::LocalAccess,
        Some(NetworkConnectivityLevel::ConstrainedInternetAccess) => InternetHintLevel::ConstrainedInternetAccess,
        Some(NetworkConnectivityLevel::InternetAccess) => InternetHintLevel::InternetAccess,
        _ => InternetHintLevel::Unknown,
    }
}

/// The body that Microsoft's connectivity probe expects.
pub open spec fn windows_expected_body() -> Seq<char> {
    "Microsoft Connect Test"@
}

/// What the Windows connectivity probe came back with.
#[derive(Debug)]
pub enum WindowsProbeOutcome {
    /// An HTTP answer with its status code and body.
    Response { status: u16, body: String },
    /// The request failed with this message.
    Failed { message: String },
    /// No answer within the probe's time limit.
    TimedOut,
}

/// Classifies the outcome of Microsoft's connectivity probe: (probe result, captive portal).
pub fn classify_windows_outcome(duration_ms: u64, outcome: WindowsProbeOutcome) -> (r: (InternetProbeResult, bool))
    ensures
        r.0.duration_ms == duration_ms,
        match outcome {
            WindowsProbeOutcome::Response { status, body } => {
                let ok = status == 200 && trim_seq(body@) == windows_expected_body();
                let captive = (300 <= status < 400) || (status == 200 && trim_seq(body@) != windows_expected_body());
                &&& r.0.http_status == Some(status)
                &&& ok ==> r.0.status == InternetProbeStatus::Success && r.0.error is None && !r.1
                &&& !ok ==> r.0.status == InternetProbeStatus::UnexpectedResponse && r.1 == captive
                    && (r.0.error matches Some(e) && e.code@ == (if captive {
                        "captive_portal_detected"@
                    } else {
                        "internet_unexpected_response"@
                    }) && e.message@ == "expected HTTP 200 with Microsoft Connect Test, received HTTP "@
                        + decimal(status as nat))
            },
            WindowsProbeOutcome::Failed { message } => {
                &&& r.0.status == InternetProbeStatus::Failed && r.0.http_status is None && !r.1
                &&& r.0.error matches Some(e) && e.code@ == "internet_probe_failed"@ && e.message@ == message@
            },
            WindowsProbeOutcome::TimedOut => {
                &&& r.0.status == InternetProbeStatus::Failed && r.0.http_status is None && !r.1
                &&& r.0.error matches Some(e) && e.code@ == "internet_timeout"@
                    && e.message@ == "internet probe timed out after 5000ms"@
            },
        },
{
    match outcome {
        WindowsProbeOutcome::Response { status, body } => {
            let chars = chars_of(body.as_str());
            let trimmed = trim(&chars);
            let matches = equals_str(&trimmed, "Microsoft Connect Test");
            if status == 200 && matches {
                return (
                    InternetProbeResult {
                        status: InternetProbeStatus::Success,
                        duration_ms,
                        http_status: Some(200),
                        error: None,
                    },
                    false,
                );
            }
            let captive_portal = (300 <= status && status < 400) || (status == 200 && !matches);
            let mut message = chars_of("expected HTTP 200 with Microsoft Connect Test, received HTTP ");
            let mut digits = decimal_chars(status as u64);
            message.append(&mut digits);
            let code = if captive_portal { "captive_portal_detected" } else { "internet_unexpected_response" };
            (
                InternetProbeResult {
                    status: InternetProbeStatus::UnexpectedResponse,
                    duration_ms,
                    http_status: Some(status),
                    error: Some(ProbeError::new(code, string_of(&message))),
                },
                captive_portal,
            )
        },
        WindowsProbeOutcome::Failed { message } => (
            InternetProbeResult {
                status: InternetProbeStatus::Failed,
                duration_ms,
                http_status: None,
                error: Some(ProbeError::new("internet_probe_failed", message)),
            },
            false,
        ),
        WindowsProbeOutcome::TimedOut => (
            InternetProbeResult {
                status: InternetProbeStatus::Failed,
                duration_ms,
                http_status: None,
                error: Some(ProbeError::new("internet_timeout", "internet probe timed out after 5000ms".to_owned())),
            },
            false,
        ),
    }
}

/// The interval before the next internet check, by the current snapshot.
pub open spec fn check_interval_spec(s: InternetSnapshot) -> u64 {
    match s.status {
        InternetStatus::Available | InternetStatus::CaptivePortal => INTERNET_CHECK_INTERVAL_MS,
        InternetStatus::Unavailable => if s.consecutive_failures >= INTERNET_FAILURE_THRESHOLD {
            internet_backoff_ms(s.consecutive_failures - INTERNET_FAILURE_THRESHOLD)
        } else {
            INTERNET_RECOVERY_INTERVAL_MS
        },
        _ => INTERNET_RECOVERY_INTERVAL_MS,
    }
}

pub open spec fn elapsed_since(checked: u64, now: u64) -> u64 {
    if now >= checked { (now - checked) as u64 } else { 0 }
}

/// What a refresh needs next.
#[derive(Debug)]
pub enum RefreshStep {
    /// The refresh is done; this is the snapshot.
    Ready(InternetSnapshot),
    /// A platform check must run; hand its result to `complete_refresh`.
    CheckNeeded,
}

/// When the internet was last checked and what was found. Times are milliseconds on
/// a monotonic clock chosen by the caller.
#[derive(Debug)]
pub struct InternetMonitor {
    last_checked_ms: Option<u64>,
    snapshot: InternetSnapshot,
}

impl InternetMonitor {
    pub closed spec fn spec_last_checked(&self) -> Option<u64> {
        self.last_checked_ms
    }

    pub closed spec fn spec_snapshot(&self) -> InternetSnapshot {
        self.snapshot
    }

    pub open spec fn is_due_spec(&self, now: u64) -> bool {
        match self.spec_last_checked() {
            Some(checked) => elapsed_since(checked, now) >= check_interval_spec(self.spec_snapshot()),
            None => true,
        }
    }

    pub fn new() -> (m: Self)
        ensures
            m.spec_last_checked() is None,
            is_unchecked(m.spec_snapshot()),
    {
        InternetMonitor { last_checked_ms: None, snapshot: InternetSnapshot::unchecked() }
    }

    /// A monitor that last checked at `last_checked_ms` and found `snapshot`.
    pub fn with_state(last_checked_ms: Option<u64>, snapshot: InternetSnapshot) -> (m: Self)
        ensures
            m.spec_last_checked() == last_checked_ms,
            m.spec_snapshot() == snapshot,
    {
        InternetMonitor { last_checked_ms, snapshot }
    }

    pub fn snapshot(&self) -> (r: &InternetSnapshot)
        ensures
            *r == self.spec_snapshot(),
    {
        &self.snapshot
    }

    /// Forgets what was found: the next check is due at once.
    pub fn reset_for_network_change(&mut self)
        ensures
            final(self).spec_last_checked() is None,
            is_unchecked(final(self).spec_snapshot()),
    {
        self.last_checked_ms = None;
        self.snapshot = InternetSnapshot::unchecked();
    }

    pub fn check_interval(&self) -> (r: u64)
        ensures
            r == check_interval_spec(self.spec_snapshot()),
    {
        match self.snapshot.status {
            InternetStatus::Available | InternetStatus::CaptivePortal => INTERNET_CHECK_INTERVAL_MS,
            InternetStatus::Unavailable => {
                if self.snapshot.consecutive_failures >= INTERNET_FAILURE_THRESHOLD {
                    let step = self.snapshot.consecutive_failures - INTERNET_FAILURE_THRESHOLD;
                    if step == 0 {
                        10_000
                    } else if step == 1 {
                        20_000
                    } else if step == 2 {
                        40_000
                    } else {
                        60_000
                    }
                } else {
                    INTERNET_RECOVERY_INTERVAL_MS
                }
            },
            _ => INTERNET_RECOVERY_INTERVAL_MS,
        }
    }

    /// Milliseconds until the next check: the full check interval without an available
    /// interface, 0 before the first check.
    pub fn next_check_in(&self, interface_available: Option<bool>, now_ms: u64) -> (r: u64)
        ensures
            interface_available != Some(true) ==> r == INTERNET_CHECK_INTERVAL_MS,
            interface_available == Some(true) ==> r == match self.spec_last_checked() {
                Some(checked) => {
                    let interval = check_interval_spec(self.spec_snapshot());
                    let elapsed = elapsed_since(checked, now_ms);
                    if interval >= elapsed { (interval - elapsed) as u64 } else { 0 }
                },
                None => 0,
            },
    {
        if interface_available != Some(true) {
            return INTERNET_CHECK_INTERVAL_MS;
        }
        let interval = self.check_interval();
        match self.last_checked_ms {
            Some(checked) => {
                let elapsed = if now_ms >= checked { now_ms - checked } else { 0 };
                if interval >= elapsed { interval - elapsed } else { 0 }
            },
            None => 0,
        }
    }

    pub fn is_due(&self, now_ms: u64) -> (b: bool)
        ensures
            b == self.is_due_spec(now_ms),
    {
        match self.last_checked_ms {
            Some(checked) => {
                let elapsed = if now_ms >= checked { now_ms - checked } else { 0 };
                elapsed >= self.check_interval()
            },
            None => true,
        }
    }

    /// The first half of a refresh: settles it without a check where the interface state
    /// decides or no check is due, else asks for a platform check.
    pub fn begin_refresh(&mut self, interface_available: Option<bool>, force: bool, now_ms: u64) -> (r: RefreshStep)
        ensures
            interface_available is None ==> final(self).spec_last_checked() is None
                && settled_without_check(final(self).spec_snapshot(), InternetStatus::Unknown, "network_snapshot_unavailable"@)
                && r == RefreshStep::Ready(final(self).spec_snapshot()),
            interface_available == Some(false) ==> final(self).spec_last_checked() is None
                && settled_without_check(final(self).spec_snapshot(), InternetStatus::Unavailable, "no_available_interface"@)
                && r == RefreshStep::Ready(final(self).spec_snapshot()),
            interface_available == Some(true) ==> *final(self) == *old(self) && (if force
                || old(self).is_due_spec(now_ms) {
                r is CheckNeeded
            } else {
                r == RefreshStep::Ready(old(self).spec_snapshot())
            }),
    {
        match interface_available {
            None => {
                self.snapshot = unknown_snapshot("network_snapshot_unavailable");
                self.last_checked_ms = None;
                RefreshStep::Ready(self.snapshot.clone())
            },
            Some(false) => {
                self.snapshot = unavailable_without_interface();
                self.last_checked_ms = None;
                RefreshStep::Ready(self.snapshot.clone())
            },
            Some(true) => {
                if !force && !self.is_due(now_ms) {
                    RefreshStep::Ready(self.snapshot.clone())
                } else {
                    RefreshStep::CheckNeeded
                }
            },
        }
    }

    /// The second half of a refresh: applies the failure policy to the check's result.
    pub fn complete_refresh(&mut self, next: InternetSnapshot, now_ms: u64) -> (r: InternetSnapshot)
        ensures
            final(self).spec_last_checked() == Some(now_ms),
            failure_policy(old(self).spec_snapshot(), next, final(self).spec_snapshot()),
            r == final(self).spec_snapshot(),
    {
        let snapshot = apply_failure_policy(&self.snapshot, next);
        self.last_checked_ms = Some(now_ms);
        self.snapshot = snapshot;
        self.snapshot.clone()
    }
}

} // verus!
