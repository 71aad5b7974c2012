use vstd::prelude::*;

use crate::config::{NetWatcherConfig, ReachabilityTargetConfig, StartWatchingOptions};
use crate::models::{
    opt_str, strs, InterfaceAddresses, InternetSnapshot, InternetStatus, NetworkInterface, NetworkLayerState,
    NetworkSnapshot, OverallState, ProbeResult, ProbeStatus, ProbeTarget, QualityLayerState, QualitySummary,
    ReachabilityStatus, ReachabilityTargetSnapshot, ReachabilityTargetState, SnapshotState, TargetQualityState,
};
use crate::quality::{evaluate_state, evaluate_state_spec, RollingWindow, StateConfig};
use crate::snapshot::{interface_view, interfaces_view, string_eq};
use crate::text::{chars_of, starts_with, starts_with_str};

verus! {

fn clone_strings(v: &Vec<String>) -> (r: Vec<String>)
    ensures
        strs(r@) == strs(v@),
{
    let mut r: Vec<String> = Vec::new();
    let mut i: usize = 0;
    while i < v.len()
        invariant
            i <= v.len(),
            strs(r@) == strs(v@.take(i as int)),
        decreases v.len() - i,
    {
        let ghost before = r@;
        r.push(v[i].clone());
        assert(strs(r@) =~= strs(before).push(v@[i as int]@));
        assert(strs(v@.take(i + 1)) =~= strs(v@.take(i as int)).push(v@[i as int]@));
        i = i + 1;
    }
    assert(v@.take(v.len() as int) =~= v@);
    r
}

fn clone_interface(i: &NetworkInterface) -> (r: NetworkInterface)
    ensures
        interface_view(r) == interface_view(*i),
{
    NetworkInterface {
        id: i.id.clone(),
        name: i.name.clone(),
        display_name: i.display_name.clone(),
        interface_type: i.interface_type,
        status: i.status,
        is_primary: i.is_primary,
        addresses: InterfaceAddresses {
            ipv4: clone_strings(&i.addresses.ipv4),
            ipv6: clone_strings(&i.addresses.ipv6),
            mac: i.addresses.mac.clone(),
        },
        gateway: i.gateway.clone(),
        dns_servers: clone_strings(&i.dns_servers),
    }
}

fn clone_interfaces(v: &Vec<NetworkInterface>) -> (r: Vec<NetworkInterface>)
    ensures
        interfaces_view(r@) == interfaces_view(v@),
{
    let mut r: Vec<NetworkInterface> = Vec::new();
    let mut i: usize = 0;
    while i < v.len()
        invariant
            i <= v.len(),
            interfaces_view(r@) == interfaces_view(v@.take(i as int)),
        decreases v.len() - i,
    {
        let ghost before = r@;
        r.push(clone_interface(&v[i]));
        assert(interfaces_view(r@) =~= interfaces_view(before).push(interface_view(v@[i as int])));
        assert(interfaces_view(v@.take(i + 1)) =~= interfaces_view(v@.take(i as int)).push(interface_view(v@[i as int])));
        i = i + 1;
    }
    assert(v@.take(v.len() as int) =~= v@);
    r
}

/// A copy of a network snapshot: the same path and the same internet evidence.
pub fn clone_network(n: &NetworkSnapshot) -> (r: NetworkSnapshot)
    ensures
        snapshot_fingerprint(r) == snapshot_fingerprint(*n),
        r.internet == n.internet,
{
    NetworkSnapshot {
        primary_interface_id: n.primary_interface_id.clone(),
        interfaces: clone_interfaces(&n.interfaces),
        internet: n.internet.clone(),
    }
}

impl Default for NetworkSnapshot {
    /// No interfaces, no primary interface, the internet not checked.
    fn default() -> (r: Self)
        ensures
            r.primary_interface_id is None,
            r.interfaces@.len() == 0,
            r.internet.status == InternetStatus::Unknown,
    {
        NetworkSnapshot { primary_interface_id: None, interfaces: Vec::new(), internet: InternetSnapshot::unchecked() }
    }
}

/// What identifies the network path: the primary interface and the interfaces. What the
/// internet check found is not part of it.
#[derive(Debug, PartialEq, Eq)]
pub struct NetworkFingerprint {
    pub primary_interface_id: Option<String>,
    pub interfaces: Vec<NetworkInterface>,
}

/// The values of a fingerprint.
pub open spec fn fingerprint_view(f: NetworkFingerprint) -> (Option<Seq<char>>, Seq<
    (
        Seq<char>,
        Seq<char>,
        Seq<char>,
        crate::models::InterfaceType,
        crate::models::InterfaceStatus,
        bool,
        Seq<Seq<char>>,
        Seq<Seq<char>>,
        Option<Seq<char>>,
        Option<Seq<char>>,
        Seq<Seq<char>>,
    ),
>) {
    (opt_str(f.primary_interface_id), interfaces_view(f.interfaces@))
}

/// The fingerprint of a network snapshot: its primary interface and its interfaces.
pub open spec fn snapshot_fingerprint(s: NetworkSnapshot) -> (Option<Seq<char>>, Seq<
    (
        Seq<char>,
        Seq<char>,
        Seq<char>,
        crate::models::InterfaceType,
        crate::models::InterfaceStatus,
        bool,
        Seq<Seq<char>>,
        Seq<Seq<char>>,
        Option<Seq<char>>,
        Option<Seq<char>>,
        Seq<Seq<char>>,
    ),
>) {
    (opt_str(s.primary_interface_id), interfaces_view(s.interfaces@))
}

impl NetworkFingerprint {
    pub fn from_snapshot(snapshot: &NetworkSnapshot) -> (f: Self)
        ensures
            fingerprint_view(f) == snapshot_fingerprint(*snapshot),
    {
        NetworkFingerprint {
            primary_interface_id: snapshot.primary_interface_id.clone(),
            interfaces: clone_interfaces(&snapshot.interfaces),
        }
    }

    /// Whether two fingerprints name the same network path.
    pub fn same_path(&self, other: &NetworkFingerprint) -> (b: bool)
        ensures
            b == (fingerprint_view(*self) == fingerprint_view(*other)),
    {
        let primary_same = match (&self.primary_interface_id, &other.primary_interface_id) {
            (None, None) => true,
            (Some(a), Some(b)) => string_eq(a, b),
            _ => false,
        };
        primary_same && crate::snapshot::interfaces_eq(&self.interfaces, &other.interfaces)
    }
}

/// What the internet check found is no part of the network path: snapshots that differ only in
/// it have the same fingerprint, so a change of internet evidence does not count as a change of
/// network.
pub proof fn lemma_fingerprint_ignores_internet(s: NetworkSnapshot, internet: InternetSnapshot)
    ensures
        snapshot_fingerprint(NetworkSnapshot { internet, ..s }) == snapshot_fingerprint(s),
{
}

fn clone_target_configs(v: &Vec<ReachabilityTargetConfig>) -> (r: Vec<ReachabilityTargetConfig>)
    ensures
        r@ == v@,
{
    let mut r: Vec<ReachabilityTargetConfig> = Vec::new();
    let mut i: usize = 0;
    while i < v.len()
        invariant
            i <= v.len(),
            r@ == v@.take(i as int),
        decreases v.len() - i,
    {
        r.push(v[i].clone());
        assert(r@ =~= v@.take(i + 1));
        i = i + 1;
    }
    assert(v@.take(v.len() as int) =~= v@);
    r
}

/// The configuration of a watching session: the plugin's configuration with the start
/// options applied, when there are any.
pub fn merge_runtime_config(config: &NetWatcherConfig, options: Option<StartWatchingOptions>) -> (r: NetWatcherConfig)
    ensures
        r.auto_start == config.auto_start,
        r.targets@ == (match options {
            Some(o) => match o.targets {
                Some(t) => t@,
                None => config.targets@,
            },
            None => config.targets@,
        }),
        r.interval_ms == (match options {
            Some(o) => match o.interval_ms {
                Some(v) => v,
                None => config.interval_ms,
            },
            None => config.interval_ms,
        }),
        r.timeout_ms == (match options {
            Some(o) => match o.timeout_ms {
                Some(v) => v,
                None => config.timeout_ms,
            },
            None => config.timeout_ms,
        }),
{
    let base = NetWatcherConfig {
        auto_start: config.auto_start,
        targets: clone_target_configs(&config.targets),
        interval_ms: config.interval_ms,
        timeout_ms: config.timeout_ms,
    };
    match options {
        Some(options) => base.with_runtime_options(options),
        None => base,
    }
}

/// The system's network-change watcher, or none where it failed to start: then the watcher
/// polls at its interval only.
pub fn system_watcher_or_interval_only<W, E>(result: Result<Option<W>, E>) -> (r: Option<W>)
    ensures
        r == match result {
            Ok(w) => w,
            Err(_) => None,
        },
{
    match result {
        Ok(w) => w,
        Err(_) => None,
    }
}

/// The network layer of the state, from whether an interface is available (`None` when the
/// interfaces could not be read). Quality and internet are left unknown.
pub open spec fn network_state_spec(interface_available: Option<bool>) -> (OverallState, NetworkLayerState, Seq<char>) {
    match interface_available {
        Some(true) => (OverallState::Online, NetworkLayerState::Connected, "network_interface_available"@),
        Some(false) => (OverallState::Offline, NetworkLayerState::Disconnected, "no_available_interface"@),
        None => (OverallState::Unknown, NetworkLayerState::Unknown, "network_snapshot_unavailable"@),
    }
}

pub fn evaluate_network_state(interface_available: Option<bool>) -> (r: SnapshotState)
    ensures
        (r.overall, r.network, r.reason@) == network_state_spec(interface_available),
        r.internet == InternetStatus::Unknown,
        r.quality == QualityLayerState::Unknown,
        r.score == 0,
{
    let (overall, network, reason) = match interface_available {
        Some(true) => (OverallState::Online, NetworkLayerState::Connected, "network_interface_available"),
        Some(false) => (OverallState::Offline, NetworkLayerState::Disconnected, "no_available_interface"),
        None => (OverallState::Unknown, NetworkLayerState::Unknown, "network_snapshot_unavailable"),
    };
    SnapshotState {
        overall,
        network,
        internet: InternetStatus::Unknown,
        quality: QualityLayerState::Unknown,
        score: 0,
        reason: reason.to_string(),
    }
}

/// A target's state: reachable or not by its latest probe (unknown before the first), its
/// quality from the state evaluation of its window, and that evaluation's reason.
pub open spec fn target_state_spec(latest: Option<ProbeStatus>, summary: QualitySummary, config: StateConfig) -> (
    ReachabilityStatus,
    TargetQualityState,
    Seq<char>,
) {
    let (_, _, quality, _, reason) = evaluate_state_spec(true, summary, config);
    (
        match latest {
            None => ReachabilityStatus::Unknown,
            Some(ProbeStatus::Success) => ReachabilityStatus::Reachable,
            Some(ProbeStatus::Failed) => ReachabilityStatus::Unreachable,
        },
        match quality {
            QualityLayerState::Stable => TargetQualityState::Stable,
            QualityLayerState::Unknown => TargetQualityState::Unknown,
            _ => TargetQualityState::Unstable,
        },
        reason,
    )
}

pub fn evaluate_target_state(latest: &Option<ProbeResult>, summary: &QualitySummary, config: &StateConfig) -> (r: ReachabilityTargetState)
    ensures
        (r.reachability, r.quality, r.reason@) == target_state_spec(
            match *latest {
                Some(p) => Some(p.status),
                None => None,
            },
            *summary,
            *config,
        ),
{
    let state = evaluate_state(true, summary, config);
    let reachability = match latest {
        None => ReachabilityStatus::Unknown,
        Some(p) => match p.status {
            ProbeStatus::Success => ReachabilityStatus::Reachable,
            ProbeStatus::Failed => ReachabilityStatus::Unreachable,
        },
    };
    let quality = match state.quality {
        QualityLayerState::Stable => TargetQualityState::Stable,
        QualityLayerState::Unknown => TargetQualityState::Unknown,
        _ => TargetQualityState::Unstable,
    };
    ReachabilityTargetState { reachability, quality, reason: state.reason }
}

/// The snapshot of one target. A suspended target is reported unknown, with the reason that the
/// network is unavailable, and its window is reported as it is.
pub fn reachability_target_snapshot(
    id: &String,
    target: &ProbeTarget,
    window: &RollingWindow,
    suspended: bool,
    config: &StateConfig,
) -> (r: ReachabilityTargetSnapshot)
    ensures
        r.id@ == id@,
        r.target == *target,
        suspended ==> r.state.reachability == ReachabilityStatus::Unknown && r.state.quality == TargetQualityState::Unknown
            && r.state.reason@ == "probe_suspended_network_unavailable"@,
        !suspended ==> (r.state.reachability, r.state.quality, r.state.reason@) == target_state_spec(
            match r.current_probe {
                Some(p) => Some(p.status),
                None => None,
            },
            r.summary,
            *config,
        ),
        crate::quality::is_summary_of(r.summary, window.spec_samples()),
        r.current_probe == (if window.spec_samples().len() == 0 {
            None
        } else {
            Some(window.spec_samples().last())
        }),
{
    let current_probe = window.latest();
    let summary = window.summary();
    let state = if suspended {
        ReachabilityTargetState {
            reachability: ReachabilityStatus::Unknown,
            quality: TargetQualityState::Unknown,
            reason: "probe_suspended_network_unavailable".to_string(),
        }
    } else {
        evaluate_target_state(&current_probe, &summary, config)
    };
    ReachabilityTargetSnapshot { id: id.clone(), state, target: target.clone(), current_probe, summary }
}

/// Probing of targets pauses while no interface is available, or the internet is known to be
/// unavailable.
pub fn targets_suspended(interface_available: Option<bool>, internet: InternetStatus) -> (b: bool)
    ensures
        b == (interface_available != Some(true) || internet == InternetStatus::Unavailable),
{
    interface_available != Some(true) || internet == InternetStatus::Unavailable
}

/// A changed field that concerns the network event: the network, its internet layer, or the state.
pub open spec fn network_field(f: Seq<char>) -> bool {
    f == "network"@ || starts_with(f, "network."@) || starts_with(f, "state."@)
}

/// Whether a snapshot's changes are announced as a network update.
pub fn network_fields_changed(fields: &Vec<String>) -> (b: bool)
    ensures
        b == exists|k: int| 0 <= k < fields@.len() && network_field(#[trigger] fields@[k]@),
{
    let mut k: usize = 0;
    while k < fields.len()
        invariant
            k <= fields.len(),
            forall|j: int| 0 <= j < k ==> !network_field(#[trigger] fields@[j]@),
        decreases fields.len() - k,
    {
        let f = chars_of(fields[k].as_str());
        if crate::text::equals_str(&f, "network") || starts_with_str(&f, "network.") || starts_with_str(&f, "state.") {
            assert(network_field(fields@[k as int]@));
            return true;
        }
        k = k + 1;
    }
    false
}

/// The least of the waits, or `u64::MAX` when there is none.
pub open spec fn least_wait(waits: Seq<Option<u64>>) -> u64
    decreases waits.len(),
{
    if waits.len() == 0 {
        u64::MAX
    } else {
        let rest = least_wait(waits.drop_last());
        match waits.last() {
            Some(w) => if w < rest {
                w
            } else {
                rest
            },
            None => rest,
        }
    }
}

/// How long the watcher sleeps: until the earliest target is due or the internet check is due.
pub fn next_wake_in(target_waits: &Vec<Option<u64>>, internet_wait: u64) -> (r: u64)
    ensures
        r == (if internet_wait < least_wait(target_waits@) {
            internet_wait
        } else {
            least_wait(target_waits@)
        }),
{
    let mut least: u64 = u64::MAX;
    let mut k: usize = 0;
    while k < target_waits.len()
        invariant
            k <= target_waits.len(),
            least == least_wait(target_waits@.take(k as int)),
        decreases target_waits.len() - k,
    {
        assert(target_waits@.take(k + 1).drop_last() =~= target_waits@.take(k as int));
        match target_waits[k] {
            Some(w) => if w < least {
                least = w;
            },
            None => {},
        }
        k = k + 1;
    }
    assert(target_waits@.take(target_waits.len() as int) =~= target_waits@);
    if internet_wait < least {
        internet_wait
    } else {
        least
    }
}

/// A signal to the watcher's loop.
#[derive(Debug, Clone, Copy, PartialEq, Eq, Structural)]
pub enum WatcherSignal {
    Stop,
    SystemNetworkChanged,
}

/// Why the watcher's loop woke.
#[derive(Debug, Clone, Copy, PartialEq, Eq, Structural)]
pub enum WatcherWake {
    Interval,
    SystemNetworkChanged,
    Stop,
}

/// What waiting on the signal channel gave.
#[derive(Debug, Clone, Copy, PartialEq, Eq, Structural)]
pub enum ReceiveOutcome {
    Received(WatcherSignal),
    Closed,
    TimedOut,
}

/// What the loop does after a wait: wake for a reason, or keep waiting out the debounce window.
#[derive(Debug, Clone, Copy, PartialEq, Eq, Structural)]
pub enum WaitStep {
    Wake(WatcherWake),
    Debounce,
}

/// After waiting for the interval: a network change starts the debounce window, a stop or a
/// closed channel stops, and the end of the interval wakes for it.
pub fn wait_step(outcome: ReceiveOutcome) -> (s: WaitStep)
    ensures
        s == match outcome {
            ReceiveOutcome::Received(WatcherSignal::SystemNetworkChanged) => WaitStep::Debounce,
            ReceiveOutcome::Received(WatcherSignal::Stop) | ReceiveOutcome::Closed => WaitStep::Wake(WatcherWake::Stop),
            ReceiveOutcome::TimedOut => WaitStep::Wake(WatcherWake::Interval),
        },
{
    match outcome {
        ReceiveOutcome::Received(WatcherSignal::SystemNetworkChanged) => WaitStep::Debounce,
        ReceiveOutcome::Received(WatcherSignal::Stop) | ReceiveOutcome::Closed => WaitStep::Wake(WatcherWake::Stop),
        ReceiveOutcome::TimedOut => WaitStep::Wake(WatcherWake::Interval),
    }
}

/// Within the debounce window: further network changes are folded in, a stop or a closed
/// channel stops, and a quiet window wakes for the network change.
pub fn debounce_step(outcome: ReceiveOutcome) -> (s: WaitStep)
    ensures
        s == match outcome {
            ReceiveOutcome::Received(WatcherSignal::SystemNetworkChanged) => WaitStep::Debounce,
            ReceiveOutcome::Received(WatcherSignal::Stop) | ReceiveOutcome::Closed => WaitStep::Wake(WatcherWake::Stop),
            ReceiveOutcome::TimedOut => WaitStep::Wake(WatcherWake::SystemNetworkChanged),
        },
{
    match outcome {
        ReceiveOutcome::Received(WatcherSignal::SystemNetworkChanged) => WaitStep::Debounce,
        ReceiveOutcome::Received(WatcherSignal::Stop) | ReceiveOutcome::Closed => WaitStep::Wake(WatcherWake::Stop),
        ReceiveOutcome::TimedOut => WaitStep::Wake(WatcherWake::SystemNetworkChanged),
    }
}

/// The wake that a sequence of debounce-window outcomes leads to, if they lead to one.
pub open spec fn debounce_result(outcomes: Seq<ReceiveOutcome>) -> Option<WatcherWake>
    decreases outcomes.len(),
{
    if outcomes.len() == 0 {
        None
    } else {
        match outcomes[0] {
            ReceiveOutcome::Received(WatcherSignal::SystemNetworkChanged) => debounce_result(outcomes.drop_first()),
            ReceiveOutcome::Received(WatcherSignal::Stop) | ReceiveOutcome::Closed => Some(WatcherWake::Stop),
            ReceiveOutcome::TimedOut => Some(WatcherWake::SystemNetworkChanged),
        }
    }
}

/// Network changes are coalesced: however many arrive in the debounce window, it ends in one
/// network-change wake, or in a stop if one comes; it never wakes for the interval.
pub proof fn lemma_debounce_coalesces(outcomes: Seq<ReceiveOutcome>)
    ensures
        debounce_result(outcomes) != Some(WatcherWake::Interval),
        (forall|i: int| 0 <= i < outcomes.len() ==> #[trigger] outcomes[i] == ReceiveOutcome::Received(WatcherSignal::SystemNetworkChanged))
            ==> debounce_result(outcomes.push(ReceiveOutcome::TimedOut)) == Some(WatcherWake::SystemNetworkChanged),
    decreases outcomes.len(),
{
    if outcomes.len() > 0 {
        lemma_debounce_coalesces(outcomes.drop_first());
        assert(outcomes.push(ReceiveOutcome::TimedOut).drop_first() =~= outcomes.drop_first().push(ReceiveOutcome::TimedOut));
        if forall|i: int| 0 <= i < outcomes.len() ==> #[trigger] outcomes[i] == ReceiveOutcome::Received(WatcherSignal::SystemNetworkChanged) {
            assert forall|i: int| 0 <= i < outcomes.drop_first().len() implies #[trigger] outcomes.drop_first()[i]
                == ReceiveOutcome::Received(WatcherSignal::SystemNetworkChanged) by {
                assert(outcomes.drop_first()[i] == outcomes[i + 1]);
            }
        }
    }
}

} // verus!
