use vstd::prelude::*;

use crate::config::{config_error, NetWatcherConfig};
use crate::error::{code_text, Error, ErrorCode};
use crate::internet::{
    check_interval_spec, elapsed_since, failure_policy, settled_without_check, InternetMonitor, RefreshStep,
    INTERNET_CHECK_INTERVAL_MS,
};
use crate::models::{
    is_unchecked, strs, InternetSnapshot, InternetStatus, NetworkSnapshot, ProbeResult, ProbeStatus, ProbeTarget,
    ProbeTargetType, QualityLayerState, QualitySummary, ReachabilityConfigSnapshot,
    ReachabilityStatus, ReachabilityTargetSnapshot, SnapshotState, TargetQualityState,
};
use crate::network::{available, has_available_interface};
use crate::probe::HttpProber;
use crate::quality::{is_summary_of, RollingWindow, StateConfig};
use crate::schedule::{
    jitter_hash_spec, max_interval_ms, next_sequence, record_outcome, TargetSchedule,
    TargetScheduleMode,
};
use crate::snapshot::SnapshotBuildInput;
use crate::text::{chars_of, concat_chars, string_of};
use vstd::string::StringSliceAdditionalSpecFns;
use crate::watcher::{
    clone_network, evaluate_network_state, evaluate_target_state, fingerprint_view, least_wait,
    network_state_spec, next_wake_in, reachability_target_snapshot, snapshot_fingerprint,
    target_state_spec, targets_suspended, NetworkFingerprint, WatcherWake,
};

verus! {

/// How many failed probes in a row make a target count as unreachable.
pub const OFFLINE_CONSECUTIVE_FAILURES: usize = 3;

/// One reachability target of a watching session: what it probes, its latest results and when
/// it is next due.
#[derive(Debug)]
pub struct TargetProbeState {
    pub id: String,
    pub target: ProbeTarget,
    pub window: RollingWindow,
    pub schedule: TargetSchedule,
}

/// A schedule that has just been set up or reset: verifying, due at `now`, nothing counted.
pub open spec fn fresh_schedule(s: TargetSchedule, now: u64) -> bool {
    &&& s.spec_mode() == TargetScheduleMode::Verifying
    &&& s.spec_next_probe_at() == now
    &&& s.spec_consecutive_failures() == 0
    &&& s.spec_recovery_successes() == 0
    &&& s.spec_probe_sequence() == 0
}

/// A target that has just been set up or reset: no results, and a fresh schedule.
pub open spec fn fresh_target(t: TargetProbeState, now: u64) -> bool {
    t.window.spec_samples().len() == 0 && fresh_schedule(t.schedule, now)
}

/// Milliseconds until a schedule is due (0 when overdue); none while it is suspended.
pub open spec fn schedule_wait(s: TargetSchedule, now: u64) -> Option<u64> {
    if s.spec_mode() == TargetScheduleMode::Suspended {
        None
    } else if s.spec_next_probe_at() >= now {
        Some((s.spec_next_probe_at() - now) as u64)
    } else {
        Some(0u64)
    }
}

/// Milliseconds until the next internet check: the full interval without an available
/// interface, 0 before the first check.
pub open spec fn internet_wait(m: InternetMonitor, interface_available: Option<bool>, now: u64) -> u64 {
    if interface_available != Some(true) {
        INTERNET_CHECK_INTERVAL_MS
    } else {
        match m.spec_last_checked() {
            Some(checked) => {
                let interval = check_interval_spec(m.spec_snapshot());
                let elapsed = elapsed_since(checked, now);
                if interval >= elapsed {
                    (interval - elapsed) as u64
                } else {
                    0
                }
            },
            None => 0,
        }
    }
}

/// The ids of the targets of `ts` that a suspension newly suspends, in order.
pub open spec fn newly_suspended(ts: Seq<TargetProbeState>, suspended: bool) -> Seq<Seq<char>>
    decreases ts.len(),
{
    if ts.len() == 0 {
        Seq::empty()
    } else {
        let rest = newly_suspended(ts.drop_last(), suspended);
        if suspended && ts.last().schedule.spec_mode() != TargetScheduleMode::Suspended {
            rest.push(ts.last().id@)
        } else {
            rest
        }
    }
}

/// The indexes of the targets of `ts` that are to be probed: all where a probe is forced, else
/// those that are due.
pub open spec fn due_indexes(ts: Seq<TargetProbeState>, force: bool, now: u64) -> Seq<usize>
    decreases ts.len(),
{
    if ts.len() == 0 {
        Seq::empty()
    } else {
        let rest = due_indexes(ts.drop_last(), force, now);
        let s = ts.last().schedule;
        if force || (s.spec_mode() != TargetScheduleMode::Suspended && now >= s.spec_next_probe_at()) {
            rest.push((ts.len() - 1) as usize)
        } else {
            rest
        }
    }
}

proof fn lemma_least_wait_bounds(waits: Seq<Option<u64>>)
    ensures
        forall|j: int| 0 <= j < waits.len() ==> match #[trigger] waits[j] {
            Some(w) => least_wait(waits) <= w,
            None => true,
        },
        least_wait(waits) == u64::MAX || exists|j: int| 0 <= j < waits.len() && #[trigger] waits[j] == Some(
            least_wait(waits),
        ),
    decreases waits.len(),
{
    if waits.len() > 0 {
        let rest = waits.drop_last();
        lemma_least_wait_bounds(rest);
        assert forall|j: int| 0 <= j < waits.len() implies match #[trigger] waits[j] {
            Some(w) => least_wait(waits) <= w,
            None => true,
        } by {
            if j < waits.len() - 1 {
                assert(waits[j] == rest[j]);
            }
        }
        if least_wait(waits) != u64::MAX {
            if waits.last() == Some(least_wait(waits)) {
                assert(waits[waits.len() - 1] == Some(least_wait(waits)));
            } else {
                let j = choose|j: int| 0 <= j < rest.len() && #[trigger] rest[j] == Some(least_wait(rest));
                assert(waits[j] == rest[j]);
            }
        }
    }
}

fn due_indexes_of(targets: &Vec<TargetProbeState>, force: bool, now_ms: u64) -> (r: Vec<usize>)
    ensures
        r@ == due_indexes(targets@, force, now_ms),
{
    let mut r: Vec<usize> = Vec::new();
    let mut i: usize = 0;
    while i < targets.len()
        invariant
            i <= targets@.len(),
            r@ == due_indexes(targets@.take(i as int), force, now_ms),
        decreases targets.len() - i,
    {
        proof {
            assert(targets@.take(i + 1).drop_last() =~= targets@.take(i as int));
        }
        if force || targets[i].schedule.is_due(now_ms) {
            r.push(i);
        }
        i = i + 1;
    }
    proof {
        assert(targets@.take(targets@.len() as int) =~= targets@);
    }
    r
}

/// Two sessions that agree in all but the forced checks.
pub open spec fn same_but_forcing(a: WatcherSession, b: WatcherSession) -> bool {
    &&& a.spec_targets() == b.spec_targets()
    &&& a.spec_window_size() == b.spec_window_size()
    &&& a.spec_interval_ms() == b.spec_interval_ms()
    &&& a.spec_timeout_ms() == b.spec_timeout_ms()
    &&& a.spec_state_config() == b.spec_state_config()
    &&& a.spec_internet() == b.spec_internet()
    &&& a.spec_fingerprint() == b.spec_fingerprint()
}

pub open spec fn target_wf(t: TargetProbeState, window_size: usize) -> bool {
    t.window.wf() && t.window.spec_capacity() == window_size
}

/// The schedule `after` is `before` once a probe of the target `id` with `status` is recorded,
/// the target's results being `samples`: the next probe follows from the status and the quality
/// that the results show.
pub open spec fn probe_scheduled(
    before: TargetSchedule,
    after: TargetSchedule,
    id: Seq<char>,
    status: ProbeStatus,
    samples: Seq<ProbeResult>,
    config: StateConfig,
    interval_ms: u64,
    now: u64,
) -> bool {
    let sequence = next_sequence(before.spec_probe_sequence());
    &&& after.spec_probe_sequence() == sequence
    &&& exists|summary: QualitySummary|
        #[trigger] is_summary_of(summary, samples) && record_outcome(
            before,
            status,
            target_state_spec(Some(status), summary, config).1,
            interval_ms,
            now,
            jitter_hash_spec(vstd::utf8::encode_utf8(id), sequence),
            after.spec_mode(),
            after.spec_next_probe_at(),
            after.spec_consecutive_failures(),
            after.spec_recovery_successes(),
        )
}

impl TargetProbeState {
    /// Takes in a probe of this target: the result enters the window, and the next probe is
    /// scheduled from it and from the quality that the window now shows.
    pub fn record(&mut self, probe: ProbeResult, config: &StateConfig, interval_ms: u64, now_ms: u64)
        requires
            old(self).window.wf(),
            now_ms as int + max_interval_ms(interval_ms) <= u64::MAX,
        ensures
            final(self).window.wf(),
            final(self).window.spec_capacity() == old(self).window.spec_capacity(),
            final(self).id == old(self).id,
            final(self).target == old(self).target,
            ({
                let before = old(self).window.spec_samples();
                let after = final(self).window.spec_samples();
                &&& before.len() < old(self).window.spec_capacity() ==> after == before.push(probe)
                &&& before.len() == old(self).window.spec_capacity() ==> after == before.drop_first().push(probe)
            }),
            probe_scheduled(
                old(self).schedule,
                final(self).schedule,
                old(self).id@,
                probe.status,
                final(self).window.spec_samples(),
                *config,
                interval_ms,
                now_ms,
            ),
    {
        let ghost before = self.window.spec_samples();
        let status = probe.status;
        self.window.push(probe);
        let summary = self.window.summary();
        let latest = self.window.latest();
        assert(self.window.spec_samples().last() == probe);
        let target_state = evaluate_target_state(&latest, &summary, config);
        let id = self.id.clone();
        let id_text = id.as_str();
        self.schedule.record_result(id_text, status, target_state.quality, interval_ms, now_ms);
        proof {
            assert(id_text.spec_bytes() == vstd::utf8::encode_utf8(self.id@));
            assert(is_summary_of(summary, self.window.spec_samples()));
        }
    }
}

/// The network has an interface that is up, not a loopback, and has an address.
pub open spec fn interface_up(n: NetworkSnapshot) -> bool {
    exists|k: int| 0 <= k < n.interfaces@.len() && available(#[trigger] n.interfaces@[k])
}

/// Every value of a network snapshot: its path (primary interface and each interface with
/// all its fields) and its internet evidence.
pub open spec fn network_view(n: NetworkSnapshot) -> (
    (Option<Seq<char>>, Seq<(Seq<char>, Seq<char>, Seq<char>, crate::models::InterfaceType,
        crate::models::InterfaceStatus, bool, Seq<Seq<char>>, Seq<Seq<char>>, Option<Seq<char>>,
        Option<Seq<char>>, Seq<Seq<char>>)>),
    InternetSnapshot,
) {
    (snapshot_fingerprint(n), n.internet)
}

/// `r` is what the session reports of target `t`: its id, target, the summary of its window and
/// its latest probe; a suspended target is unknown in reachability and quality, with the suspension reason;
/// any other is judged by its latest probe and its window's summary under `config`.
pub open spec fn reports_target(r: ReachabilityTargetSnapshot, t: TargetProbeState, config: StateConfig) -> bool {
    &&& r.id@ == t.id@
    &&& r.target == t.target
    &&& is_summary_of(r.summary, t.window.spec_samples())
    &&& r.current_probe == (if t.window.spec_samples().len() == 0 {
        None
    } else {
        Some(t.window.spec_samples().last())
    })
    &&& t.schedule.spec_mode() == TargetScheduleMode::Suspended ==> {
        &&& r.state.reachability == ReachabilityStatus::Unknown
        &&& r.state.quality == TargetQualityState::Unknown
        &&& r.state.reason@ == "probe_suspended_network_unavailable"@
    }
    &&& t.schedule.spec_mode() != TargetScheduleMode::Suspended ==> (r.state.reachability, r.state.quality, r.state.reason@)
        == target_state_spec(
        match r.current_probe {
            Some(p) => Some(p.status),
            None => None,
        },
        r.summary,
        config,
    )
}

/// What taking in the internet check's result does (see `WatcherSession::apply_internet`): the
/// session `before` becomes `after` and reports `u`.
pub open spec fn internet_applied(
    before: WatcherSession,
    observation: NetworkObservation,
    internet: InternetSnapshot,
    now_ms: u64,
    after: WatcherSession,
    u: CycleUpdate,
) -> bool {
    &&& !after.spec_force_internet()
    &&& u.targets_suspended == (observation.interface_available != Some(true) || internet.status
        == InternetStatus::Unavailable)
    &&& u.interface_available == observation.interface_available
    &&& u.network == (NetworkSnapshot { internet, ..observation.network })
    &&& u.state == (SnapshotState { internet: internet.status, ..observation.state })
    &&& after.spec_targets().len() == before.spec_targets().len()
    &&& forall|i: int|
        0 <= i < before.spec_targets().len() ==> {
            &&& (#[trigger] after.spec_targets()[i]).id == before.spec_targets()[i].id
            &&& after.spec_targets()[i].target == before.spec_targets()[i].target
            &&& after.spec_targets()[i].window == before.spec_targets()[i].window
            &&& u.targets_suspended ==> after.spec_targets()[i].schedule.spec_mode()
                == TargetScheduleMode::Suspended
            &&& !u.targets_suspended ==> after.spec_targets()[i].schedule.spec_mode()
                != TargetScheduleMode::Suspended
            &&& (!u.targets_suspended && before.spec_targets()[i].schedule.spec_mode()
                == TargetScheduleMode::Suspended) ==> fresh_schedule(after.spec_targets()[i].schedule, now_ms)
            &&& (!u.targets_suspended && before.spec_targets()[i].schedule.spec_mode()
                != TargetScheduleMode::Suspended) ==> after.spec_targets()[i].schedule
                == before.spec_targets()[i].schedule
        }
    &&& strs(u.newly_suspended_ids@) == newly_suspended(before.spec_targets(), u.targets_suspended)
    &&& after.spec_force_probe() == (before.spec_force_probe() || (!u.targets_suspended
        && exists|i: int|
        0 <= i < before.spec_targets().len()
            && (#[trigger] before.spec_targets()[i]).schedule.spec_mode()
            == TargetScheduleMode::Suspended))
    &&& after.spec_internet() == before.spec_internet()
    &&& after.spec_fingerprint() == before.spec_fingerprint()
    &&& after.spec_window_size() == before.spec_window_size()
    &&& after.spec_interval_ms() == before.spec_interval_ms()
    &&& after.spec_timeout_ms() == before.spec_timeout_ms()
    &&& after.spec_state_config() == before.spec_state_config()
}

proof fn lemma_all_suspended_names_none(ts: Seq<TargetProbeState>)
    requires
        forall|i: int| 0 <= i < ts.len() ==> (#[trigger] ts[i]).schedule.spec_mode() == TargetScheduleMode::Suspended,
    ensures
        newly_suspended(ts, true).len() == 0,
    decreases ts.len(),
{
    if ts.len() > 0 {
        assert(ts[ts.len() - 1] == ts.last());
        let rest = ts.drop_last();
        assert forall|i: int| 0 <= i < rest.len() implies (#[trigger] rest[i]).schedule.spec_mode()
            == TargetScheduleMode::Suspended by {
            assert(rest[i] == ts[i]);
        }
        lemma_all_suspended_names_none(rest);
    }
}

/// One turn of the watcher while no interface is available (or the interface state is unknown)
/// or the internet is unavailable: taking in the internet check suspends every target and names
/// those that were not suspended yet, in order, so that each is announced once; choosing the
/// targets to probe then gives none; every target is reported unknown, in reachability and in
/// quality, with the suspension reason; and a further such turn names no target again.
pub proof fn lemma_unavailable_turn_suspends_every_target(
    before: WatcherSession,
    observation: NetworkObservation,
    internet: InternetSnapshot,
    now_ms: u64,
    applied: WatcherSession,
    update: CycleUpdate,
    after: WatcherSession,
    due: Seq<usize>,
    reports: Seq<ReachabilityTargetSnapshot>,
)
    requires
        observation.interface_available != Some(true) || internet.status == InternetStatus::Unavailable,
        internet_applied(before, observation, internet, now_ms, applied, update),
        same_but_forcing(after, applied),
        update.targets_suspended ==> due.len() == 0,
        reports.len() == after.spec_targets().len(),
        forall|i: int|
            0 <= i < reports.len() ==> reports_target(
                #[trigger] reports[i],
                after.spec_targets()[i],
                after.spec_state_config(),
            ),
    ensures
        update.targets_suspended,
        due.len() == 0,
        after.spec_targets().len() == before.spec_targets().len(),
        forall|i: int|
            0 <= i < after.spec_targets().len() ==> (#[trigger] after.spec_targets()[i]).schedule.spec_mode()
                == TargetScheduleMode::Suspended,
        strs(update.newly_suspended_ids@) == newly_suspended(before.spec_targets(), true),
        forall|i: int|
            0 <= i < reports.len() ==> {
                &&& (#[trigger] reports[i]).id@ == before.spec_targets()[i].id@
                &&& reports[i].state.reachability == ReachabilityStatus::Unknown
                &&& reports[i].state.quality == TargetQualityState::Unknown
                &&& reports[i].state.reason@ == "probe_suspended_network_unavailable"@
            },
        newly_suspended(after.spec_targets(), true).len() == 0,
{
    assert forall|i: int| 0 <= i < after.spec_targets().len() implies (#[trigger] after.spec_targets()[i]).schedule.spec_mode()
        == TargetScheduleMode::Suspended by {
        assert(after.spec_targets()[i] == applied.spec_targets()[i]);
    }
    assert forall|i: int| 0 <= i < reports.len() implies {
        &&& (#[trigger] reports[i]).id@ == before.spec_targets()[i].id@
        &&& reports[i].state.reachability == ReachabilityStatus::Unknown
        &&& reports[i].state.quality == TargetQualityState::Unknown
        &&& reports[i].state.reason@ == "probe_suspended_network_unavailable"@
    } by {
        assert(reports_target(reports[i], after.spec_targets()[i], after.spec_state_config()));
        assert(after.spec_targets()[i] == applied.spec_targets()[i]);
        assert(applied.spec_targets()[i].id == before.spec_targets()[i].id);
    }
    lemma_all_suspended_names_none(after.spec_targets());
}

/// What one read of the network tells the watcher.
#[derive(Debug)]
pub struct NetworkObservation {
    pub network: NetworkSnapshot,
    pub state: SnapshotState,
    pub interface_available: Option<bool>,
    /// The primary interface or the interfaces differ from those of the last read.
    pub path_changed: bool,
}

/// A cycle's network, state and target suspension, once the internet check is in.
#[derive(Debug)]
pub struct CycleUpdate {
    pub network: NetworkSnapshot,
    pub state: SnapshotState,
    pub interface_available: Option<bool>,
    pub targets_suspended: bool,
    /// The targets that this cycle suspended, in order.
    pub newly_suspended_ids: Vec<String>,
}

/// The decisions of a watching session: which targets to probe, what their results mean, when
/// to check again, and what a change of network path resets. Times are milliseconds on a
/// monotonic clock chosen by the caller.
#[derive(Debug)]
pub struct WatcherSession {
    targets: Vec<TargetProbeState>,
    window_size: usize,
    interval_ms: u64,
    timeout_ms: u64,
    state_config: StateConfig,
    internet: InternetMonitor,
    force_internet_check: bool,
    force_target_probe: bool,
    fingerprint: Option<NetworkFingerprint>,
}

impl WatcherSession {
    pub closed spec fn spec_targets(&self) -> Seq<TargetProbeState> {
        self.targets@
    }

    pub closed spec fn spec_window_size(&self) -> usize {
        self.window_size
    }

    pub closed spec fn spec_interval_ms(&self) -> u64 {
        self.interval_ms
    }

    pub closed spec fn spec_timeout_ms(&self) -> u64 {
        self.timeout_ms
    }

    pub closed spec fn spec_state_config(&self) -> StateConfig {
        self.state_config
    }

    pub closed spec fn spec_internet(&self) -> InternetMonitor {
        self.internet
    }

    pub closed spec fn spec_force_internet(&self) -> bool {
        self.force_internet_check
    }

    pub closed spec fn spec_force_probe(&self) -> bool {
        self.force_target_probe
    }

    pub closed spec fn spec_fingerprint(&self) -> Option<NetworkFingerprint> {
        self.fingerprint
    }

    pub closed spec fn wf(&self) -> bool {
        &&& self.window_size >= 1
        &&& forall|i: int| 0 <= i < self.targets@.len() ==> target_wf(#[trigger] self.targets@[i], self.window_size)
    }

    /// A session for `config` whose targets are all due at `now_ms`; both checks are forced.
    pub fn new(config: &NetWatcherConfig, now_ms: u64) -> (s: Self)
        ensures
            s.wf(),
            s.spec_targets().len() == config.targets@.len(),
            forall|i: int|
                0 <= i < config.targets@.len() ==> {
                    let t = #[trigger] s.spec_targets()[i];
                    &&& t.id == config.targets@[i].id
                    &&& t.target == (ProbeTarget {
                        target_type: ProbeTargetType::Http,
                        url: config.targets@[i].url,
                    })
                    &&& fresh_target(t, now_ms)
                },
            s.spec_window_size() == 20,
            s.spec_interval_ms() == config.interval_ms,
            s.spec_timeout_ms() == config.timeout_ms,
            s.spec_state_config() == (StateConfig {
                degraded_failure_rate_bp: 1_500,
                degraded_p95_latency_ms: 800,
                offline_consecutive_failures: OFFLINE_CONSECUTIVE_FAILURES,
            }),
            s.spec_force_internet(),
            s.spec_force_probe(),
            s.spec_fingerprint() is None,
            s.spec_internet().spec_last_checked() is None,
            is_unchecked(s.spec_internet().spec_snapshot()),
    {
        let window_size = config.window_size();
        let mut targets: Vec<TargetProbeState> = Vec::new();
        let mut i: usize = 0;
        while i < config.targets.len()
            invariant
                i <= config.targets@.len(),
                window_size == 20,
                targets@.len() == i,
                forall|j: int|
                    0 <= j < i ==> {
                        let t = #[trigger] targets@[j];
                        &&& t.id == config.targets@[j].id
                        &&& t.target == (ProbeTarget {
                            target_type: ProbeTargetType::Http,
                            url: config.targets@[j].url,
                        })
                        &&& fresh_target(t, now_ms)
                        &&& target_wf(t, window_size)
                    },
            decreases config.targets.len() - i,
        {
            let c = &config.targets[i];
            targets.push(
                TargetProbeState {
                    id: c.id.clone(),
                    target: ProbeTarget { target_type: ProbeTargetType::Http, url: c.url.clone() },
                    window: RollingWindow::new(window_size),
                    schedule: TargetSchedule::new(now_ms),
                },
            );
            i = i + 1;
        }
        WatcherSession {
            targets,
            window_size,
            interval_ms: config.interval_ms,
            timeout_ms: config.timeout_ms,
            state_config: StateConfig {
                degraded_failure_rate_bp: config.degraded_failure_rate_bp(),
                degraded_p95_latency_ms: config.degraded_p95_latency_ms(),
                offline_consecutive_failures: OFFLINE_CONSECUTIVE_FAILURES,
            },
            internet: InternetMonitor::new(),
            force_internet_check: true,
            force_target_probe: true,
            fingerprint: None,
        }
    }

    pub fn targets(&self) -> (r: &Vec<TargetProbeState>)
        ensures
            r@ == self.spec_targets(),
    {
        &self.targets
    }

    pub fn internet(&self) -> (r: &InternetMonitor)
        ensures
            *r == self.spec_internet(),
    {
        &self.internet
    }

    /// The reachability configuration that the snapshots report.
    pub fn reachability_config(&self) -> (r: ReachabilityConfigSnapshot)
        ensures
            r == (ReachabilityConfigSnapshot {
                interval_ms: self.spec_interval_ms(),
                window_size: self.spec_window_size(),
                timeout_ms: self.spec_timeout_ms(),
            }),
    {
        ReachabilityConfigSnapshot {
            interval_ms: self.interval_ms,
            window_size: self.window_size,
            timeout_ms: self.timeout_ms,
        }
    }

    /// The prober of this session, with its time limit.
    pub fn prober(&self) -> (p: HttpProber)
        ensures
            p.limit_ms() == self.spec_timeout_ms(),
    {
        HttpProber::new(self.timeout_ms)
    }

    /// Takes in one read of the network. Where it failed, the network counts as unknown and the
    /// reason names the error's code. Where the path differs from the last read, the internet
    /// evidence and every target's results and schedule start over, and both checks are forced.
    pub fn observe_network(&mut self, read: Result<NetworkSnapshot, Error>, now_ms: u64) -> (o: NetworkObservation)
        requires
            old(self).wf(),
        ensures
            final(self).wf(),
            match read {
                Ok(n) => {
                    &&& o.interface_available == Some(interface_up(n))
                    &&& o.network == n
                    &&& (o.state.overall, o.state.network, o.state.reason@) == network_state_spec(
                        o.interface_available,
                    )
                },
                Err(e) => {
                    &&& o.interface_available is None
                    &&& o.network.primary_interface_id is None
                    &&& o.network.interfaces@.len() == 0
                    &&& o.network.internet.status == InternetStatus::Unknown
                    &&& (o.state.overall, o.state.network) == (
                        network_state_spec(None).0,
                        network_state_spec(None).1,
                    )
                    &&& o.state.reason@ == "network_snapshot_failed:"@ + code_text(e.code)
                },
            },
            o.state.internet == InternetStatus::Unknown,
            o.state.quality == QualityLayerState::Unknown,
            o.state.score == 0,
            o.path_changed == match old(self).spec_fingerprint() {
                Some(f) => fingerprint_view(f) != snapshot_fingerprint(o.network),
                None => true,
            },
            o.path_changed ==> {
                &&& final(self).spec_fingerprint() is Some
                &&& fingerprint_view(final(self).spec_fingerprint()->0) == snapshot_fingerprint(o.network)
                &&& final(self).spec_force_internet()
                &&& final(self).spec_force_probe()
                &&& final(self).spec_internet().spec_last_checked() is None
                &&& is_unchecked(final(self).spec_internet().spec_snapshot())
                &&& final(self).spec_targets().len() == old(self).spec_targets().len()
                &&& forall|i: int|
                    0 <= i < old(self).spec_targets().len() ==> {
                        &&& (#[trigger] final(self).spec_targets()[i]).id == old(self).spec_targets()[i].id
                        &&& final(self).spec_targets()[i].target == old(self).spec_targets()[i].target
                        &&& fresh_target(final(self).spec_targets()[i], now_ms)
                    }
                &&& final(self).spec_window_size() == old(self).spec_window_size()
                &&& final(self).spec_interval_ms() == old(self).spec_interval_ms()
                &&& final(self).spec_timeout_ms() == old(self).spec_timeout_ms()
                &&& final(self).spec_state_config() == old(self).spec_state_config()
            },
            !o.path_changed ==> *final(self) == *old(self),
    {
        let (network, state, interface_available) = match read {
            Ok(n) => {
                let up = has_available_interface(&n);
                let state = evaluate_network_state(Some(up));
                (n, state, Some(up))
            },
            Err(e) => {
                let mut state = evaluate_network_state(None);
                let reason = concat_chars(&chars_of("network_snapshot_failed:"), &chars_of(e.code()));
                state.reason = string_of(&reason);
                (NetworkSnapshot::default(), state, None)
            },
        };
        let next = NetworkFingerprint::from_snapshot(&network);
        let path_changed = match &self.fingerprint {
            Some(f) => !f.same_path(&next),
            None => true,
        };
        if path_changed {
            self.fingerprint = Some(next);
            self.internet.reset_for_network_change();
            self.reset_targets(now_ms);
            self.force_internet_check = true;
            self.force_target_probe = true;
        }
        NetworkObservation { network, state, interface_available, path_changed }
    }

    /// Every target starts over: no results, due at `now_ms`.
    fn reset_targets(&mut self, now_ms: u64)
        requires
            old(self).wf(),
        ensures
            final(self).wf(),
            final(self).spec_targets().len() == old(self).spec_targets().len(),
            forall|i: int|
                0 <= i < old(self).spec_targets().len() ==> {
                    &&& (#[trigger] final(self).spec_targets()[i]).id == old(self).spec_targets()[i].id
                    &&& final(self).spec_targets()[i].target == old(self).spec_targets()[i].target
                    &&& fresh_target(final(self).spec_targets()[i], now_ms)
                },
            final(self).spec_window_size() == old(self).spec_window_size(),
            final(self).spec_interval_ms() == old(self).spec_interval_ms(),
            final(self).spec_timeout_ms() == old(self).spec_timeout_ms(),
            final(self).spec_state_config() == old(self).spec_state_config(),
            final(self).spec_internet() == old(self).spec_internet(),
            final(self).spec_force_internet() == old(self).spec_force_internet(),
            final(self).spec_force_probe() == old(self).spec_force_probe(),
            final(self).spec_fingerprint() == old(self).spec_fingerprint(),
    {
        let n = self.targets.len();
        let mut i: usize = 0;
        while i < n
            invariant
                n == self.targets@.len(),
                n == old(self).targets@.len(),
                i <= n,
                self.window_size == old(self).window_size,
                self.window_size >= 1,
                self.interval_ms == old(self).interval_ms,
                self.timeout_ms == old(self).timeout_ms,
                self.state_config == old(self).state_config,
                self.internet == old(self).internet,
                self.force_internet_check == old(self).force_internet_check,
                self.force_target_probe == old(self).force_target_probe,
                self.fingerprint == old(self).fingerprint,
                forall|j: int|
                    0 <= j < n ==> {
                        &&& (#[trigger] self.targets@[j]).id == old(self).targets@[j].id
                        &&& self.targets@[j].target == old(self).targets@[j].target
                        &&& target_wf(self.targets@[j], self.window_size)
                    },
                forall|j: int| 0 <= j < i ==> fresh_target(#[trigger] self.targets@[j], now_ms),
            decreases n - i,
        {
            let window = RollingWindow::new(self.window_size);
            self.targets[i].window = window;
            self.targets[i].schedule.reset(now_ms);
            i = i + 1;
        }
    }

    /// The first half of the internet check: settles it where the interface state decides or
    /// no check is due, else asks for a platform check (forced after a change of path).
    pub fn begin_internet_refresh(&mut self, interface_available: Option<bool>, now_ms: u64) -> (r: RefreshStep)
        ensures
            interface_available == Some(true) ==> (if old(self).spec_force_internet()
                || old(self).spec_internet().is_due_spec(now_ms) {
                r is CheckNeeded
            } else {
                r == RefreshStep::Ready(old(self).spec_internet().spec_snapshot())
            }),
            interface_available is None ==> final(self).spec_internet().spec_last_checked() is None
                && settled_without_check(final(self).spec_internet().spec_snapshot(), InternetStatus::Unknown,
                "network_snapshot_unavailable"@)
                && r == RefreshStep::Ready(final(self).spec_internet().spec_snapshot()),
            interface_available == Some(false) ==> final(self).spec_internet().spec_last_checked() is None
                && settled_without_check(final(self).spec_internet().spec_snapshot(), InternetStatus::Unavailable,
                "no_available_interface"@)
                && r == RefreshStep::Ready(final(self).spec_internet().spec_snapshot()),
            interface_available == Some(true) ==> final(self).spec_internet() == old(self).spec_internet(),
            final(self).spec_targets() == old(self).spec_targets(),
            final(self).spec_force_internet() == old(self).spec_force_internet(),
            final(self).spec_force_probe() == old(self).spec_force_probe(),
            final(self).spec_fingerprint() == old(self).spec_fingerprint(),
            final(self).spec_window_size() == old(self).spec_window_size(),
            final(self).spec_interval_ms() == old(self).spec_interval_ms(),
            final(self).spec_timeout_ms() == old(self).spec_timeout_ms(),
            final(self).spec_state_config() == old(self).spec_state_config(),
            old(self).wf() ==> final(self).wf(),
    {
        let r = self.internet.begin_refresh(interface_available, self.force_internet_check, now_ms);
        proof {
            if interface_available != Some(true) {
                assert(interface_available is None || interface_available == Some(false));
            }
        }
        r
    }

    /// The second half of the internet check: the platform check's result, after the failure
    /// policy.
    pub fn complete_internet_refresh(&mut self, next: InternetSnapshot, now_ms: u64) -> (r: InternetSnapshot)
        ensures
            final(self).spec_internet().spec_last_checked() == Some(now_ms),
            r == final(self).spec_internet().spec_snapshot(),
            failure_policy(old(self).spec_internet().spec_snapshot(), next, r),
            final(self).spec_targets() == old(self).spec_targets(),
            final(self).spec_force_internet() == old(self).spec_force_internet(),
            final(self).spec_force_probe() == old(self).spec_force_probe(),
            final(self).spec_fingerprint() == old(self).spec_fingerprint(),
            final(self).spec_window_size() == old(self).spec_window_size(),
            final(self).spec_interval_ms() == old(self).spec_interval_ms(),
            final(self).spec_timeout_ms() == old(self).spec_timeout_ms(),
            final(self).spec_state_config() == old(self).spec_state_config(),
            old(self).wf() ==> final(self).wf(),
    {
        self.internet.complete_refresh(next, now_ms)
    }

    /// Takes in a wake of the watcher: a change of network forces both checks; `false` where
    /// the watcher is to stop.
    pub fn on_wake(&mut self, wake: WatcherWake) -> (go_on: bool)
        ensures
            go_on == (wake != WatcherWake::Stop),
            wake == WatcherWake::SystemNetworkChanged ==> final(self).spec_force_internet()
                && final(self).spec_force_probe(),
            same_but_forcing(*final(self), *old(self)),
            old(self).wf() ==> final(self).wf(),
            wake != WatcherWake::SystemNetworkChanged ==> *final(self) == *old(self),
    {
        match wake {
            WatcherWake::Interval => true,
            WatcherWake::SystemNetworkChanged => {
                self.force_internet_check = true;
                self.force_target_probe = true;
                true
            },
            WatcherWake::Stop => false,
        }
    }

    /// Takes in the internet check's result: the state's internet layer is filled in, and the
    /// targets are suspended while no interface is available or the internet is unavailable,
    /// and resumed (due at `now_ms`, a probe forced) otherwise.
    pub fn apply_internet(&mut self, observation: NetworkObservation, internet: InternetSnapshot, now_ms: u64) -> (u: CycleUpdate)
        requires
            old(self).wf(),
        ensures
            final(self).wf(),
            internet_applied(*old(self), observation, internet, now_ms, *final(self), u),
    {
        self.force_internet_check = false;
        let suspended = targets_suspended(observation.interface_available, internet.status);
        let interface_available = observation.interface_available;
        let state = SnapshotState {
            overall: observation.state.overall,
            network: observation.state.network,
            internet: internet.status,
            quality: observation.state.quality,
            score: observation.state.score,
            reason: observation.state.reason,
        };
        let network = NetworkSnapshot {
            primary_interface_id: observation.network.primary_interface_id,
            interfaces: observation.network.interfaces,
            internet,
        };
        let mut newly: Vec<String> = Vec::new();
        let n = self.targets.len();
        let mut any_resumed = false;
        let mut i: usize = 0;
        while i < n
            invariant
                n == self.targets@.len(),
                n == old(self).targets@.len(),
                i <= n,
                self.window_size == old(self).window_size,
                self.window_size >= 1,
                self.interval_ms == old(self).interval_ms,
                self.timeout_ms == old(self).timeout_ms,
                self.state_config == old(self).state_config,
                self.internet == old(self).internet,
                !self.force_internet_check,
                self.force_target_probe == old(self).force_target_probe,
                self.fingerprint == old(self).fingerprint,
                forall|j: int|
                    0 <= j < n ==> {
                        &&& (#[trigger] self.targets@[j]).id == old(self).targets@[j].id
                        &&& self.targets@[j].target == old(self).targets@[j].target
                        &&& self.targets@[j].window == old(self).targets@[j].window
                        &&& target_wf(self.targets@[j], self.window_size)
                    },
                forall|j: int| i <= j < n ==> (#[trigger] self.targets@[j]).schedule == old(self).targets@[j].schedule,
                forall|j: int|
                    0 <= j < i ==> {
                        &&& suspended ==> (#[trigger] self.targets@[j]).schedule.spec_mode()
                            == TargetScheduleMode::Suspended
                        &&& !suspended ==> self.targets@[j].schedule.spec_mode() != TargetScheduleMode::Suspended
                        &&& (!suspended && old(self).targets@[j].schedule.spec_mode()
                            == TargetScheduleMode::Suspended) ==> fresh_schedule(self.targets@[j].schedule, now_ms)
                        &&& (!suspended && old(self).targets@[j].schedule.spec_mode()
                            != TargetScheduleMode::Suspended) ==> self.targets@[j].schedule
                            == old(self).targets@[j].schedule
                    },
                strs(newly@) == newly_suspended(old(self).targets@.take(i as int), suspended),
                any_resumed == (!suspended && exists|j: int|
                    0 <= j < i && (#[trigger] old(self).targets@[j]).schedule.spec_mode()
                        == TargetScheduleMode::Suspended),
            decreases n - i,
        {
            proof {
                assert(old(self).targets@.take(i + 1).drop_last() =~= old(self).targets@.take(i as int));
            }
            let was_suspended = self.targets[i].schedule.is_suspended();
            if suspended {
                if !was_suspended {
                    self.targets[i].schedule.suspend();
                    newly.push(self.targets[i].id.clone());
                }
            } else if was_suspended {
                self.targets[i].schedule.reset(now_ms);
                any_resumed = true;
            }
            i = i + 1;
        }
        proof {
            assert(old(self).targets@.take(n as int) =~= old(self).targets@);
        }
        if any_resumed {
            self.force_target_probe = true;
        }
        CycleUpdate { network, state, interface_available, targets_suspended: suspended, newly_suspended_ids: newly }
    }

    /// The snapshot of every target: its state, latest probe and summary.
    pub fn target_snapshots(&self) -> (r: Vec<ReachabilityTargetSnapshot>)
        ensures
            r@.len() == self.spec_targets().len(),
            forall|i: int|
                0 <= i < r@.len() ==> reports_target(#[trigger] r@[i], self.spec_targets()[i], self.spec_state_config()),
    {
        let mut r: Vec<ReachabilityTargetSnapshot> = Vec::new();
        let mut i: usize = 0;
        while i < self.targets.len()
            invariant
                i <= self.targets@.len(),
                r@.len() == i,
                forall|j: int| 0 <= j < i ==> reports_target(#[trigger] r@[j], self.targets@[j], self.state_config),
            decreases self.targets.len() - i,
        {
            let t = &self.targets[i];
            let s = reachability_target_snapshot(&t.id, &t.target, &t.window, t.schedule.is_suspended(), &self.state_config);
            r.push(s);
            i = i + 1;
        }
        r
    }

    /// What the next snapshot is built from: this cycle's network and state, and the targets.
    pub fn snapshot_input(&self, update: &CycleUpdate) -> (input: SnapshotBuildInput)
        ensures
            network_view(input.network) == network_view(update.network),
            input.state == update.state,
            input.reachability_config == (ReachabilityConfigSnapshot {
                interval_ms: self.spec_interval_ms(),
                window_size: self.spec_window_size(),
                timeout_ms: self.spec_timeout_ms(),
            }),
            input.reachability_targets@.len() == self.spec_targets().len(),
            forall|i: int|
                0 <= i < input.reachability_targets@.len() ==> reports_target(
                    #[trigger] input.reachability_targets@[i],
                    self.spec_targets()[i],
                    self.spec_state_config(),
                ),
    {
        SnapshotBuildInput {
            network: clone_network(&update.network),
            state: update.state.clone(),
            reachability_config: self.reachability_config(),
            reachability_targets: self.target_snapshots(),
        }
    }

    /// The targets to probe now: none while suspended; else all of them where a probe is forced,
    /// or those that are due. The forced probe is used up.
    pub fn due_targets(&mut self, targets_suspended: bool, now_ms: u64) -> (r: Vec<usize>)
        ensures
            !final(self).spec_force_probe(),
            same_but_forcing(*final(self), *old(self)),
            old(self).wf() ==> final(self).wf(),
            final(self).spec_force_internet() == old(self).spec_force_internet(),
            targets_suspended ==> r@.len() == 0,
            !targets_suspended ==> r@ == due_indexes(old(self).spec_targets(), old(self).spec_force_probe(), now_ms),
    {
        let r = if targets_suspended {
            Vec::new()
        } else {
            due_indexes_of(&self.targets, self.force_target_probe, now_ms)
        };
        self.force_target_probe = false;
        r
    }

    /// The probe target at `index`.
    pub fn probe_target(&self, index: usize) -> (t: ProbeTarget)
        requires
            index < self.spec_targets().len(),
        ensures
            t == self.spec_targets()[index as int].target,
    {
        self.targets[index].target.clone()
    }

    /// Takes in a probe of the target at `index`: the result enters its window, and its next
    /// probe is scheduled from the result and the quality that the window now shows.
    pub fn record_probe(&mut self, index: usize, probe: ProbeResult, now_ms: u64)
        requires
            old(self).wf(),
            index < old(self).spec_targets().len(),
            now_ms as int + max_interval_ms(old(self).spec_interval_ms()) <= u64::MAX,
        ensures
            final(self).wf(),
            final(self).spec_targets().len() == old(self).spec_targets().len(),
            forall|i: int|
                0 <= i < old(self).spec_targets().len() && i != index ==> #[trigger] final(self).spec_targets()[i]
                    == old(self).spec_targets()[i],
            final(self).spec_targets()[index as int].id == old(self).spec_targets()[index as int].id,
            final(self).spec_targets()[index as int].target == old(self).spec_targets()[index as int].target,
            ({
                let before = old(self).spec_targets()[index as int].window.spec_samples();
                let after = final(self).spec_targets()[index as int].window.spec_samples();
                &&& before.len() < final(self).spec_window_size() ==> after == before.push(probe)
                &&& before.len() == final(self).spec_window_size() ==> after == before.drop_first().push(probe)
            }),
            probe_scheduled(
                old(self).spec_targets()[index as int].schedule,
                final(self).spec_targets()[index as int].schedule,
                old(self).spec_targets()[index as int].id@,
                probe.status,
                final(self).spec_targets()[index as int].window.spec_samples(),
                old(self).spec_state_config(),
                old(self).spec_interval_ms(),
                now_ms,
            ),
            final(self).spec_window_size() == old(self).spec_window_size(),
            final(self).spec_interval_ms() == old(self).spec_interval_ms(),
            final(self).spec_timeout_ms() == old(self).spec_timeout_ms(),
            final(self).spec_state_config() == old(self).spec_state_config(),
            final(self).spec_internet() == old(self).spec_internet(),
            final(self).spec_force_internet() == old(self).spec_force_internet(),
            final(self).spec_force_probe() == old(self).spec_force_probe(),
            final(self).spec_fingerprint() == old(self).spec_fingerprint(),
    {
        let interval = self.interval_ms;
        let config = self.state_config;
        self.targets[index].record(probe, &config, interval, now_ms);
    }

    /// Milliseconds until the watcher is next due: the nearest target probe or internet check.
    pub fn next_wake_in(&self, interface_available: Option<bool>, now_ms: u64) -> (r: u64)
        ensures
            r <= internet_wait(self.spec_internet(), interface_available, now_ms),
            forall|i: int|
                0 <= i < self.spec_targets().len() ==> match schedule_wait(
                    (#[trigger] self.spec_targets()[i]).schedule,
                    now_ms,
                ) {
                    Some(w) => r <= w,
                    None => true,
                },
            r == internet_wait(self.spec_internet(), interface_available, now_ms) || exists|i: int|
                0 <= i < self.spec_targets().len() && schedule_wait(
                    (#[trigger] self.spec_targets()[i]).schedule,
                    now_ms,
                ) == Some(r),
    {
        let mut waits: Vec<Option<u64>> = Vec::new();
        let mut i: usize = 0;
        while i < self.targets.len()
            invariant
                i <= self.targets@.len(),
                waits@.len() == i,
                forall|j: int| 0 <= j < i ==> #[trigger] waits@[j] == schedule_wait(self.targets@[j].schedule, now_ms),
            decreases self.targets.len() - i,
        {
            waits.push(self.targets[i].schedule.next_check_in(now_ms));
            i = i + 1;
        }
        let internet_wait = self.internet.next_check_in(interface_available, now_ms);
        proof {
            lemma_least_wait_bounds(waits@);
        }
        let r = next_wake_in(&waits, internet_wait);
        proof {
            if r != internet_wait {
                let j = choose|j: int| 0 <= j < waits@.len() && #[trigger] waits@[j] == Some(least_wait(waits@));
                assert(schedule_wait(self.targets@[j].schedule, now_ms) == Some(r));
            }
            assert forall|i: int| 0 <= i < self.targets@.len() implies match schedule_wait(
                (#[trigger] self.targets@[i]).schedule,
                now_ms,
            ) {
                Some(w) => r <= w,
                None => true,
            } by {
                assert(waits@[i] == schedule_wait(self.targets@[i].schedule, now_ms));
            }
        }
        r
    }
}

/// Whether a watching session may start with `config` (the configuration with the start options
/// applied): not while one runs, and only with a valid configuration.
pub fn start_request(running: bool, config: &NetWatcherConfig) -> (r: Result<(), Error>)
    ensures
        running ==> (r matches Err(e) && e.code == ErrorCode::AlreadyWatching),
        !running ==> (r is Ok <==> config_error(*config) is None),
        !running ==> (r matches Err(e) ==> e.code == ErrorCode::InvalidConfig && config_error(*config) == Some(
            e.message@,
        )),
{
    if running {
        return Err(Error::already_watching());
    }
    config.validate()
}

/// Whether a watching session can be stopped: only while one runs.
pub fn stop_request(running: bool) -> (r: Result<(), Error>)
    ensures
        running <==> r is Ok,
        r matches Err(e) ==> e.code == ErrorCode::NotWatching,
{
    if running {
        Ok(())
    } else {
        Err(Error::not_watching())
    }
}

} // verus!
