use vstd::prelude::*;

verus! {

/// A point in UTC time, at the clock's full resolution: whole seconds since the Unix epoch and
/// the nanoseconds past them.
#[derive(Debug, Clone, Copy, PartialEq, Eq, Structural)]
pub struct UtcTime {
    pub secs: i64,
    pub nanos: u32,
}

/// The view of an optional string: the characters, if there is one.
pub open spec fn opt_str(o: Option<String>) -> Option<Seq<char>> {
    match o {
        Some(s) => Some(s@),
        None => None,
    }
}

/// The views of a list of strings.
pub open spec fn strs(v: Seq<String>) -> Seq<Seq<char>> {
    v.map_values(|s: String| s@)
}

#[derive(Debug, Clone, Copy, PartialEq, Eq, Structural)]
pub enum OverallState {
    Unknown,
    Offline,
    LocalOnly,
    Degraded,
    Online,
}

#[derive(Debug, Clone, Copy, PartialEq, Eq, Structural)]
pub enum NetworkLayerState {
    Unknown,
    Disconnected,
    Connected,
}

#[derive(Debug, Clone, Copy, PartialEq, Eq, Structural)]
pub enum QualityLayerState {
    Unknown,
    Unreachable,
    Unstable,
    Stable,
}

#[derive(Debug, Clone, Copy, PartialEq, Eq, Structural)]
pub enum InternetStatus {
    Unknown,
    Available,
    Degraded,
    CaptivePortal,
    Unavailable,
}

#[derive(Debug, Clone, Copy, PartialEq, Eq, Structural)]
pub enum InternetHintSource {
    Unavailable,
    WindowsNcsi,
    MacosReachability,
}

#[derive(Debug, Clone, Copy, PartialEq, Eq, Structural)]
pub enum InternetHintLevel {
    Unknown,
    NoConnectivity,
    LocalAccess,
    ConstrainedInternetAccess,
    InternetAccess,
}

#[derive(Debug, Clone, Copy, PartialEq, Eq, Structural)]
pub enum InternetProbeStatus {
    Success,
    UnexpectedResponse,
    Failed,
}

#[derive(Debug, Clone, Copy, PartialEq, Eq, Structural)]
pub enum ReachabilityStatus {
    Unknown,
    Reachable,
    Unreachable,
}

#[derive(Debug, Clone, Copy, PartialEq, Eq, Structural)]
pub enum TargetQualityState {
    Unknown,
    Stable,
    Unstable,
}

#[derive(Debug, Clone, Copy, PartialEq, Eq, Structural)]
pub enum InterfaceType {
    Wifi,
    Ethernet,
    Vpn,
    Loopback,
    Unknown,
}

#[derive(Debug, Clone, Copy, PartialEq, Eq, Structural)]
pub enum InterfaceStatus {
    Up,
    Down,
}

#[derive(Debug, Clone, Copy, PartialEq, Eq, Structural)]
pub enum ProbeTargetType {
    Http,
}

#[derive(Debug, Clone, Copy, PartialEq, Eq, Structural)]
pub enum ProbeStatus {
    Success,
    Failed,
}

/// The state part of a snapshot: the overall verdict and its layers.
#[derive(Debug, PartialEq, Eq)]
pub struct SnapshotState {
    pub overall: OverallState,
    pub network: NetworkLayerState,
    pub internet: InternetStatus,
    pub quality: QualityLayerState,
    pub score: u8,
    pub reason: String,
}

/// Identity and provenance of one snapshot.
#[derive(Debug, PartialEq, Eq)]
pub struct SnapshotMeta {
    pub snapshot_id: String,
    pub timestamp: UtcTime,
    pub platform: String,
    pub plugin_version: String,
}

#[derive(Debug, PartialEq, Eq)]
pub struct InterfaceAddresses {
    pub ipv4: Vec<String>,
    pub ipv6: Vec<String>,
    pub mac: Option<String>,
}

#[derive(Debug, PartialEq, Eq)]
pub struct NetworkInterface {
    pub id: String,
    pub name: String,
    pub display_name: String,
    pub interface_type: InterfaceType,
    pub status: InterfaceStatus,
    pub is_primary: bool,
    pub addresses: InterfaceAddresses,
    pub gateway: Option<String>,
    pub dns_servers: Vec<String>,
}

#[derive(Debug, PartialEq, Eq)]
pub struct NetworkSnapshot {
    pub primary_interface_id: Option<String>,
    pub interfaces: Vec<NetworkInterface>,
    pub internet: InternetSnapshot,
}

#[derive(Debug, Clone, Copy, PartialEq, Eq, Structural)]
pub struct InternetSystemHint {
    pub source: InternetHintSource,
    pub level: InternetHintLevel,
}

#[derive(Debug, PartialEq, Eq)]
pub struct ProbeError {
    pub code: String,
    pub message: String,
}

#[derive(Debug, PartialEq, Eq)]
pub struct InternetProbeResult {
    pub status: InternetProbeStatus,
    pub duration_ms: u64,
    pub http_status: Option<u16>,
    pub error: Option<ProbeError>,
}

/// What is known of the path to the internet.
#[derive(Debug, PartialEq, Eq)]
pub struct InternetSnapshot {
    pub status: InternetStatus,
    pub verified: bool,
    pub system_hint: InternetSystemHint,
    pub active_probe: Option<InternetProbeResult>,
    pub captive_portal: bool,
    pub checked_at: Option<UtcTime>,
    pub consecutive_failures: usize,
    pub reason: String,
}

#[derive(Debug, PartialEq, Eq)]
pub struct ProbeTarget {
    pub target_type: ProbeTargetType,
    pub url: String,
}

#[derive(Debug, Clone, Copy, PartialEq, Eq, Structural)]
pub struct ProbePhases {
    pub dns_ms: Option<u64>,
    pub tcp_ms: Option<u64>,
    pub tls_ms: Option<u64>,
    pub http_ms: Option<u64>,
}

impl Default for ProbePhases {
    fn default() -> (p: Self)
        ensures
            p == (ProbePhases { dns_ms: None, tcp_ms: None, tls_ms: None, http_ms: None }),
    {
        ProbePhases { dns_ms: None, tcp_ms: None, tls_ms: None, http_ms: None }
    }
}

#[derive(Debug, Clone, Copy, PartialEq, Eq, Structural)]
pub struct HttpProbeResult {
    pub status_code: u16,
}

/// One probe of a reachability target.
#[derive(Debug, PartialEq, Eq)]
pub struct ProbeResult {
    pub id: String,
    pub status: ProbeStatus,
    pub started_at: UtcTime,
    pub ended_at: UtcTime,
    pub duration_ms: u64,
    pub phases: ProbePhases,
    pub http: Option<HttpProbeResult>,
    pub error: Option<ProbeError>,
}

#[derive(Debug, Clone, Copy, PartialEq, Eq, Structural)]
pub struct LatencySummary {
    pub avg: u64,
    pub min: u64,
    pub max: u64,
    pub p95: u64,
}

/// Summary of a window of probes. The failure rate is `failure_count / sample_count`.
#[derive(Debug, PartialEq, Eq)]
pub struct QualitySummary {
    pub sample_count: usize,
    pub success_count: usize,
    pub failure_count: usize,
    pub latency_ms: LatencySummary,
    pub jitter_ms: u64,
    pub consecutive_failures: usize,
    pub last_success_at: Option<UtcTime>,
    pub last_failure_at: Option<UtcTime>,
    pub last_failure_reason: Option<String>,
}

#[derive(Debug, Clone, Copy, PartialEq, Eq, Structural)]
pub struct QualityConfigSnapshot {
    pub interval_ms: u64,
    pub window_size: usize,
    pub timeout_ms: u64,
}

#[derive(Debug, Clone, Copy, PartialEq, Eq, Structural)]
pub struct ReachabilityConfigSnapshot {
    pub interval_ms: u64,
    pub window_size: usize,
    pub timeout_ms: u64,
}

#[derive(Debug, PartialEq, Eq)]
pub struct ReachabilityTargetState {
    pub reachability: ReachabilityStatus,
    pub quality: TargetQualityState,
    pub reason: String,
}

#[derive(Debug, PartialEq, Eq)]
pub struct ReachabilityTargetSnapshot {
    pub id: String,
    pub state: ReachabilityTargetState,
    pub target: ProbeTarget,
    pub current_probe: Option<ProbeResult>,
    pub summary: QualitySummary,
}

#[derive(Debug, PartialEq, Eq)]
pub struct ReachabilitySnapshot {
    pub config: ReachabilityConfigSnapshot,
    pub targets: Vec<ReachabilityTargetSnapshot>,
}

#[derive(Debug, PartialEq, Eq)]
pub struct SnapshotChanges {
    pub has_changes: bool,
    pub previous_overall: Option<OverallState>,
    pub current_overall: OverallState,
    pub changed_fields: Vec<String>,
    pub changed_target_ids: Vec<String>,
}

#[derive(Debug, PartialEq, Eq)]
pub struct NetWatcherSnapshot {
    pub meta: SnapshotMeta,
    pub state: SnapshotState,
    pub network: NetworkSnapshot,
    pub reachability: ReachabilitySnapshot,
    pub changes: SnapshotChanges,
}

impl Default for LatencySummary {
    fn default() -> (r: Self)
        ensures
            r == (LatencySummary { avg: 0, min: 0, max: 0, p95: 0 }),
    {
        LatencySummary::zero()
    }
}

impl Default for QualitySummary {
    /// The summary of an empty window.
    fn default() -> (r: Self)
        ensures
            r.sample_count == 0,
            r.success_count == 0,
            r.failure_count == 0,
            r.latency_ms == (LatencySummary { avg: 0, min: 0, max: 0, p95: 0 }),
            r.jitter_ms == 0,
            r.consecutive_failures == 0,
            r.last_success_at is None,
            r.last_failure_at is None,
            r.last_failure_reason is None,
    {
        QualitySummary::empty()
    }
}

impl LatencySummary {
    pub fn zero() -> (r: Self)
        ensures
            r == (LatencySummary { avg: 0, min: 0, max: 0, p95: 0 }),
    {
        LatencySummary { avg: 0, min: 0, max: 0, p95: 0 }
    }
}

impl ProbePhases {
    pub fn empty() -> (r: Self)
        ensures
            r == (ProbePhases { dns_ms: None, tcp_ms: None, tls_ms: None, http_ms: None }),
    {
        ProbePhases { dns_ms: None, tcp_ms: None, tls_ms: None, http_ms: None }
    }
}

impl ProbeError {
    pub fn new(code: &str, message: String) -> (r: Self)
        ensures
            r.code@ == code@,
            r.message@ == message@,
    {
        ProbeError { code: code.to_owned(), message }
    }

    pub fn copy(&self) -> (r: Self)
        ensures
            r.code@ == self.code@,
            r.message@ == self.message@,
    {
        ProbeError { code: self.code.clone(), message: self.message.clone() }
    }
}

impl InternetSystemHint {
    pub open spec fn unavailable_spec() -> Self {
        InternetSystemHint { source: InternetHintSource::Unavailable, level: InternetHintLevel::Unknown }
    }

    /// No system hint: its source is unavailable and its level unknown.
    pub fn unavailable() -> (r: Self)
        ensures
            r == (InternetSystemHint {
                source: InternetHintSource::Unavailable,
                level: InternetHintLevel::Unknown,
            }),
    {
        InternetSystemHint { source: InternetHintSource::Unavailable, level: InternetHintLevel::Unknown }
    }
}

/// The reason that an internet snapshot carries before the first check.
pub open spec fn internet_not_checked_reason() -> Seq<char> {
    "internet_not_checked"@
}

/// `s` is the internet snapshot before any check: unknown, unverified, no system hint, no
/// probe, no captive portal, never checked, no failures, and the not-checked reason.
pub open spec fn is_unchecked(s: InternetSnapshot) -> bool {
    &&& s.status == InternetStatus::Unknown
    &&& !s.verified
    &&& s.system_hint == (InternetSystemHint {
        source: InternetHintSource::Unavailable,
        level: InternetHintLevel::Unknown,
    })
    &&& s.active_probe is None
    &&& !s.captive_portal
    &&& s.checked_at is None
    &&& s.consecutive_failures == 0
    &&& s.reason@ == internet_not_checked_reason()
}

impl InternetSnapshot {
    /// The internet snapshot before any check: unknown, unverified, no hint, no probe.
    pub fn unchecked() -> (r: Self)
        ensures
            r.status == InternetStatus::Unknown,
            !r.verified,
            r.system_hint == (InternetSystemHint {
                source: InternetHintSource::Unavailable,
                level: InternetHintLevel::Unknown,
            }),
            r.active_probe is None,
            !r.captive_portal,
            r.checked_at is None,
            r.consecutive_failures == 0,
            r.reason@ == internet_not_checked_reason(),
            is_unchecked(r),
    {
        InternetSnapshot {
            status: InternetStatus::Unknown,
            verified: false,
            system_hint: InternetSystemHint::unavailable(),
            active_probe: None,
            captive_portal: false,
            checked_at: None,
            consecutive_failures: 0,
            reason: "internet_not_checked".to_owned(),
        }
    }
}

impl QualitySummary {
    /// The summary of an empty window.
    pub fn empty() -> (r: Self)
        ensures
            r.sample_count == 0,
            r.success_count == 0,
            r.failure_count == 0,
            r.latency_ms == (LatencySummary { avg: 0, min: 0, max: 0, p95: 0 }),
            r.jitter_ms == 0,
            r.consecutive_failures == 0,
            r.last_success_at is None,
            r.last_failure_at is None,
            r.last_failure_reason is None,
    {
        QualitySummary {
            sample_count: 0,
            success_count: 0,
            failure_count: 0,
            latency_ms: LatencySummary::zero(),
            jitter_ms: 0,
            consecutive_failures: 0,
            last_success_at: None,
            last_failure_at: None,
            last_failure_reason: None,
        }
    }
}

impl Clone for ProbeError {
    fn clone(&self) -> (r: Self)
        ensures
            r == *self,
    {
        ProbeError { code: self.code.clone(), message: self.message.clone() }
    }
}

impl Clone for ProbeResult {
    fn clone(&self) -> (r: Self)
        ensures
            r == *self,
    {
        let error = match &self.error {
            Some(e) => Some(e.clone()),
            None => None,
        };
        ProbeResult {
            id: self.id.clone(),
            status: self.status,
            started_at: self.started_at,
            ended_at: self.ended_at,
            duration_ms: self.duration_ms,
            phases: self.phases,
            http: self.http,
            error,
        }
    }
}

impl Clone for InternetProbeResult {
    fn clone(&self) -> (r: Self)
        ensures
            r == *self,
    {
        let error = match &self.error {
            Some(e) => Some(e.clone()),
            None => None,
        };
        InternetProbeResult {
            status: self.status,
            duration_ms: self.duration_ms,
            http_status: self.http_status,
            error,
        }
    }
}

impl Clone for InternetSnapshot {
    fn clone(&self) -> (r: Self)
        ensures
            r == *self,
    {
        let active_probe = match &self.active_probe {
            Some(p) => Some(p.clone()),
            None => None,
        };
        InternetSnapshot {
            status: self.status,
            verified: self.verified,
            system_hint: self.system_hint,
            active_probe,
            captive_portal: self.captive_portal,
            checked_at: self.checked_at,
            consecutive_failures: self.consecutive_failures,
            reason: self.reason.clone(),
        }
    }
}

impl Clone for QualitySummary {
    fn clone(&self) -> (r: Self)
        ensures
            r == *self,
    {
        let last_failure_reason = match &self.last_failure_reason {
            Some(e) => Some(e.clone()),
            None => None,
        };
        QualitySummary {
            sample_count: self.sample_count,
            success_count: self.success_count,
            failure_count: self.failure_count,
            latency_ms: self.latency_ms,
            jitter_ms: self.jitter_ms,
            consecutive_failures: self.consecutive_failures,
            last_success_at: self.last_success_at,
            last_failure_at: self.last_failure_at,
            last_failure_reason,
        }
    }
}

impl Clone for SnapshotState {
    fn clone(&self) -> (r: Self)
        ensures
            r == *self,
    {
        SnapshotState {
            overall: self.overall,
            network: self.network,
            internet: self.internet,
            quality: self.quality,
            score: self.score,
            reason: self.reason.clone(),
        }
    }
}

impl Clone for ProbeTarget {
    fn clone(&self) -> (r: Self)
        ensures
            r == *self,
    {
        ProbeTarget { target_type: self.target_type, url: self.url.clone() }
    }
}

} // verus!
