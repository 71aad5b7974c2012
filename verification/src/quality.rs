use vstd::prelude::*;
use std::collections::VecDeque;

use crate::models::{
    InternetStatus, LatencySummary, NetworkLayerState, OverallState, ProbeResult, ProbeStatus,
    QualityLayerState, QualitySummary, SnapshotState, UtcTime, opt_str,
};
use crate::stats::{jitter, jitter_spec, latency_summary, latency_summary_spec};

verus! {

/// The latencies of the successful probes of `s`, in order.
pub open spec fn success_latencies(s: Seq<ProbeResult>) -> Seq<u64>
    decreases s.len(),
{
    if s.len() == 0 {
        Seq::empty()
    } else if s.last().status == ProbeStatus::Success {
        success_latencies(s.drop_last()).push(s.last().duration_ms)
    } else {
        success_latencies(s.drop_last())
    }
}

/// The number of failed probes at the end of `s`.
pub open spec fn trailing_failures(s: Seq<ProbeResult>) -> nat
    decreases s.len(),
{
    if s.len() == 0 {
        0
    } else if s.last().status == ProbeStatus::Failed {
        trailing_failures(s.drop_last()) + 1
    } else {
        0
    }
}

/// The latest probe of `s` with the given status.
pub open spec fn last_with_status(s: Seq<ProbeResult>, status: ProbeStatus) -> Option<ProbeResult>
    decreases s.len(),
{
    if s.len() == 0 {
        None
    } else if s.last().status == status {
        Some(s.last())
    } else {
        last_with_status(s.drop_last(), status)
    }
}

/// The error code of a failed probe, if it carries one.
pub open spec fn failure_reason(p: Option<ProbeResult>) -> Option<Seq<char>> {
    match p {
        Some(p) => match p.error {
            Some(e) => Some(e.code@),
            None => None,
        },
        None => None,
    }
}

pub open spec fn ended_at(p: Option<ProbeResult>) -> Option<UtcTime> {
    match p {
        Some(p) => Some(p.ended_at),
        None => None,
    }
}

/// `r` is the summary of the window `s`.
pub open spec fn is_summary_of(r: QualitySummary, s: Seq<ProbeResult>) -> bool {
    let lat = success_latencies(s);
    &&& r.sample_count == s.len()
    &&& r.success_count == lat.len()
    &&& r.failure_count == s.len() - lat.len()
    &&& r.latency_ms == latency_summary_spec(lat)
    &&& r.jitter_ms == jitter_spec(lat)
    &&& r.consecutive_failures == trailing_failures(s)
    &&& r.last_success_at == ended_at(last_with_status(s, ProbeStatus::Success))
    &&& r.last_failure_at == ended_at(last_with_status(s, ProbeStatus::Failed))
    &&& opt_str(r.last_failure_reason) == failure_reason(last_with_status(s, ProbeStatus::Failed))
}

proof fn lemma_success_latencies_len(s: Seq<ProbeResult>)
    ensures
        success_latencies(s).len() + trailing_failures(s) <= s.len(),
    decreases s.len(),
{
    if s.len() > 0 {
        lemma_success_latencies_len(s.drop_last());
    }
}

/// The results of a window of `capacity` that held `s`, once `sample` is pushed.
pub open spec fn window_push_spec(s: Seq<ProbeResult>, capacity: nat, sample: ProbeResult) -> Seq<ProbeResult> {
    if s.len() < capacity {
        s.push(sample)
    } else {
        s.drop_first().push(sample)
    }
}

/// The results of an empty window of `capacity` once each of `pushed` is pushed, in order.
pub open spec fn window_after_pushes(capacity: nat, pushed: Seq<ProbeResult>) -> Seq<ProbeResult>
    decreases pushed.len(),
{
    if pushed.len() == 0 {
        Seq::empty()
    } else {
        window_push_spec(window_after_pushes(capacity, pushed.drop_last()), capacity, pushed.last())
    }
}

/// After any number of pushes into an empty window, it holds exactly the latest `capacity`
/// results (all of them while there are fewer), oldest first.
pub proof fn lemma_window_keeps_latest(capacity: nat, pushed: Seq<ProbeResult>)
    requires
        capacity >= 1,
    ensures
        window_after_pushes(capacity, pushed) == pushed.subrange(
            if pushed.len() > capacity { pushed.len() - capacity } else { 0 },
            pushed.len() as int,
        ),
    decreases pushed.len(),
{
    if pushed.len() > 0 {
        let before = pushed.drop_last();
        lemma_window_keeps_latest(capacity, before);
        let n = pushed.len() as int;
        if before.len() < capacity {
            assert(before.subrange(0, n - 1) =~= before);
            assert(before.push(pushed.last()) =~= pushed.subrange(
                if pushed.len() > capacity { pushed.len() - capacity } else { 0 },
                n,
            ));
        } else {
            let k = n - 1 - capacity;
            assert(before.subrange(k, n - 1).drop_first().push(pushed.last()) =~= pushed.subrange(k + 1, n));
        }
    }
}

/// A bounded window of the latest probe results; the oldest result leaves first.
#[derive(Debug)]
pub struct RollingWindow {
    capacity: usize,
    samples: VecDeque<ProbeResult>,
}

impl RollingWindow {
    pub closed spec fn spec_capacity(&self) -> usize {
        self.capacity
    }

    pub closed spec fn spec_samples(&self) -> Seq<ProbeResult> {
        self.samples@
    }

    pub closed spec fn wf(&self) -> bool {
        1 <= self.capacity && self.samples@.len() <= self.capacity
    }

    /// A well-formed window holds at most its capacity, which is at least one.
    pub proof fn lemma_wf_bounds(&self)
        requires
            self.wf(),
        ensures
            1 <= self.spec_capacity(),
            self.spec_samples().len() <= self.spec_capacity(),
    {
    }

    /// An empty window that holds at most `max(capacity, 1)` results.
    pub fn new(capacity: usize) -> (w: Self)
        ensures
            w.wf(),
            w.spec_capacity() == if capacity == 0 { 1 } else { capacity },
            w.spec_samples() == Seq::<ProbeResult>::empty(),
    {
        let capacity = if capacity == 0 { 1 } else { capacity };
        RollingWindow { capacity, samples: VecDeque::new() }
    }

    pub fn len(&self) -> (n: usize)
        ensures
            n == self.spec_samples().len(),
    {
        broadcast use vstd::std_specs::vecdeque::axiom_spec_len;

        self.samples.len()
    }

    /// Appends `sample`, dropping the oldest result when the window is full.
    pub fn push(&mut self, sample: ProbeResult)
        requires
            old(self).wf(),
        ensures
            final(self).wf(),
            final(self).spec_capacity() == old(self).spec_capacity(),
            old(self).spec_samples().len() < old(self).spec_capacity() ==> final(self).spec_samples()
                == old(self).spec_samples().push(sample),
            old(self).spec_samples().len() == old(self).spec_capacity() ==> final(self).spec_samples()
                == old(self).spec_samples().drop_first().push(sample),
            final(self).spec_samples().len() >= 1,
            final(self).spec_samples().last() == sample,
            final(self).spec_samples() == window_push_spec(
                old(self).spec_samples(),
                old(self).spec_capacity() as nat,
                sample,
            ),
    {
        broadcast use vstd::std_specs::vecdeque::axiom_spec_len;

        if self.samples.len() == self.capacity {
            let _oldest = self.samples.pop_front();
        }
        self.samples.push_back(sample);
    }

    /// The newest result.
    pub fn latest(&self) -> (r: Option<ProbeResult>)
        ensures
            self.spec_samples().len() == 0 ==> r is None,
            self.spec_samples().len() > 0 ==> r == Some(self.spec_samples().last()),
    {
        broadcast use vstd::std_specs::vecdeque::axiom_spec_len;

        let n = self.samples.len();
        if n == 0 {
            None
        } else {
            Some(self.samples[n - 1].clone())
        }
    }

    /// The quality summary of the results in the window.
    pub fn summary(&self) -> (r: QualitySummary)
        ensures
            is_summary_of(r, self.spec_samples()),
    {
        broadcast use vstd::std_specs::vecdeque::axiom_spec_len;

        let n = self.samples.len();
        let mut latencies: Vec<u64> = Vec::new();
        let mut consecutive_failures: usize = 0;
        let mut last_success_at: Option<UtcTime> = None;
        let mut last_failure_at: Option<UtcTime> = None;
        let mut last_failure_reason: Option<String> = None;
        let mut i: usize = 0;
        while i < n
            invariant
                n == self.samples@.len(),
                i <= n,
                latencies@ == success_latencies(self.samples@.take(i as int)),
                consecutive_failures == trailing_failures(self.samples@.take(i as int)),
                last_success_at == ended_at(
                    last_with_status(self.samples@.take(i as int), ProbeStatus::Success),
                ),
                last_failure_at == ended_at(
                    last_with_status(self.samples@.take(i as int), ProbeStatus::Failed),
                ),
                opt_str(last_failure_reason) == failure_reason(
                    last_with_status(self.samples@.take(i as int), ProbeStatus::Failed),
                ),
            decreases n - i,
        {
            let ghost t = self.samples@.take(i as int + 1);
            assert(t.drop_last() =~= self.samples@.take(i as int));
            proof {
                lemma_success_latencies_len(self.samples@.take(i as int));
            }
            let sample = &self.samples[i];
            match sample.status {
                ProbeStatus::Success => {
                    latencies.push(sample.duration_ms);
                    consecutive_failures = 0;
                    last_success_at = Some(sample.ended_at);
                },
                ProbeStatus::Failed => {
                    consecutive_failures = consecutive_failures + 1;
                    last_failure_at = Some(sample.ended_at);
                    last_failure_reason = match &sample.error {
                        Some(e) => Some(e.code.clone()),
                        None => None,
                    };
                },
            }
            i = i + 1;
        }
        assert(self.samples@.take(n as int) =~= self.samples@);
        proof {
            lemma_success_latencies_len(self.samples@);
        }
        let success_count = latencies.len();
        let latency_ms = latency_summary(&latencies);
        let jitter_ms = jitter(&latencies);
        QualitySummary {
            sample_count: n,
            success_count,
            failure_count: n - success_count,
            latency_ms,
            jitter_ms,
            consecutive_failures,
            last_success_at: last_success_at,
            last_failure_at: last_failure_at,
            last_failure_reason,
        }
    }
}

/// Thresholds of the state evaluation. The failure rate threshold is in basis points
/// (10 000 is a rate of 1).
#[derive(Debug, Clone, Copy, PartialEq, Eq, Structural)]
pub struct StateConfig {
    pub degraded_failure_rate_bp: u32,
    pub degraded_p95_latency_ms: u64,
    pub offline_consecutive_failures: usize,
}

/// The thresholds actually applied: a zero rate becomes 15 %, a rate above 1 becomes 1,
/// a zero latency becomes 800 ms and at least one consecutive failure is required.
pub open spec fn normalized(c: StateConfig) -> StateConfig {
    StateConfig {
        degraded_failure_rate_bp: if c.degraded_failure_rate_bp == 0 {
            1500
        } else if c.degraded_failure_rate_bp > 10_000 {
            10_000
        } else {
            c.degraded_failure_rate_bp
        },
        degraded_p95_latency_ms: if c.degraded_p95_latency_ms == 0 {
            800
        } else {
            c.degraded_p95_latency_ms
        },
        offline_consecutive_failures: if c.offline_consecutive_failures == 0 {
            1
        } else {
            c.offline_consecutive_failures
        },
    }
}

fn normalize_config(config: &StateConfig) -> (r: StateConfig)
    ensures
        r == normalized(*config),
{
    StateConfig {
        degraded_failure_rate_bp: if config.degraded_failure_rate_bp == 0 {
            1500
        } else if config.degraded_failure_rate_bp > 10_000 {
            10_000
        } else {
            config.degraded_failure_rate_bp
        },
        degraded_p95_latency_ms: if config.degraded_p95_latency_ms == 0 {
            800
        } else {
            config.degraded_p95_latency_ms
        },
        offline_consecutive_failures: if config.offline_consecutive_failures == 0 {
            1
        } else {
            config.offline_consecutive_failures
        },
    }
}

/// `round(60 * failure_count / sample_count)` with the rate clamped to `[0, 1]`; 0 without samples.
pub open spec fn failure_penalty(failures: int, samples: int) -> int {
    if samples <= 0 {
        0
    } else if failures >= samples {
        60
    } else {
        (120 * failures + samples) / (2 * samples)
    }
}

pub open spec fn min_int(a: int, b: int) -> int {
    if a <= b { a } else { b }
}

/// The quality score of a summary, from 0 to 100.
pub open spec fn score_spec(s: QualitySummary) -> int {
    let total = failure_penalty(s.failure_count as int, s.sample_count as int)
        + min_int((s.latency_ms.p95 / 100) as int, 30)
        + min_int((s.jitter_ms / 25) as int, 20)
        + min_int(s.consecutive_failures as int, 3) * 10;
    if total >= 100 { 0 } else { 100 - total }
}

pub fn calculate_score(summary: &QualitySummary) -> (r: u8)
    ensures
        r == score_spec(*summary),
{
    let samples = summary.sample_count as u128;
    let failures = summary.failure_count as u128;
    let failure: u128 = if samples == 0 {
        0
    } else if failures >= samples {
        60
    } else {
        assert(120 * failures + samples <= 121 * samples) by (nonlinear_arith)
            requires failures < samples;
        assert((120 * failures + samples) / (2 * samples) <= 60) by (nonlinear_arith)
            requires failures < samples, samples > 0;
        (120 * failures + samples) / (2 * samples)
    };
    let latency: u128 = if summary.latency_ms.p95 / 100 < 30 { (summary.latency_ms.p95 / 100) as u128 } else { 30 };
    let jitter: u128 = if summary.jitter_ms / 25 < 20 { (summary.jitter_ms / 25) as u128 } else { 20 };
    let consecutive: u128 = if summary.consecutive_failures < 3 {
        (summary.consecutive_failures as u128) * 10
    } else {
        30
    };
    let total = failure + latency + jitter + consecutive;
    if total >= 100 {
        0
    } else {
        (100 - total) as u8
    }
}

pub open spec fn degraded(s: QualitySummary, c: StateConfig) -> bool {
    ||| s.failure_count as int * 10_000 >= c.degraded_failure_rate_bp as int * s.sample_count as int
    ||| s.latency_ms.p95 >= c.degraded_p95_latency_ms
    ||| s.jitter_ms >= 300
}

/// The state that `evaluate_state` gives, as (overall, network, quality, score, reason).
pub open spec fn evaluate_state_spec(has_interface: bool, s: QualitySummary, config: StateConfig) -> (
    OverallState,
    NetworkLayerState,
    QualityLayerState,
    int,
    Seq<char>,
) {
    let c = normalized(config);
    if !has_interface {
        (OverallState::Offline, NetworkLayerState::Disconnected, QualityLayerState::Unknown, 0, "no_available_interface"@)
    } else if s.sample_count == 0 {
        (OverallState::Unknown, NetworkLayerState::Connected, QualityLayerState::Unknown, 0, "insufficient_data"@)
    } else if s.consecutive_failures >= c.offline_consecutive_failures {
        (OverallState::LocalOnly, NetworkLayerState::Connected, QualityLayerState::Unreachable, 10, "target_unreachable"@)
    } else if degraded(s, c) {
        (OverallState::Degraded, NetworkLayerState::Connected, QualityLayerState::Unstable, score_spec(s), "high_latency_or_recent_failures"@)
    } else {
        (OverallState::Online, NetworkLayerState::Connected, QualityLayerState::Stable, score_spec(s), "network_stable"@)
    }
}

/// Combines interface availability and the probe summary into the snapshot state.
/// The internet layer is left unknown: the watcher fills it in.
pub fn evaluate_state(has_available_interface: bool, summary: &QualitySummary, config: &StateConfig) -> (r: SnapshotState)
    ensures
        r.internet == InternetStatus::Unknown,
        (r.overall, r.network, r.quality, r.score as int, r.reason@)
            == evaluate_state_spec(has_available_interface, *summary, *config),
{
    let config = normalize_config(config);
    if !has_available_interface {
        return SnapshotState {
            overall: OverallState::Offline,
            network: NetworkLayerState::Disconnected,
            internet: InternetStatus::Unknown,
            quality: QualityLayerState::Unknown,
            score: 0,
            reason: "no_available_interface".to_owned(),
        };
    }
    if summary.sample_count == 0 {
        return SnapshotState {
            overall: OverallState::Unknown,
            network: NetworkLayerState::Connected,
            internet: InternetStatus::Unknown,
            quality: QualityLayerState::Unknown,
            score: 0,
            reason: "insufficient_data".to_owned(),
        };
    }
    if summary.consecutive_failures >= config.offline_consecutive_failures {
        return SnapshotState {
            overall: OverallState::LocalOnly,
            network: NetworkLayerState::Connected,
            internet: InternetStatus::Unknown,
            quality: QualityLayerState::Unreachable,
            score: 10,
            reason: "target_unreachable".to_owned(),
        };
    }
    let score = calculate_score(summary);
    assert((config.degraded_failure_rate_bp as u128) * (summary.sample_count as u128) <= (u32::MAX as u128) * (usize::MAX as u128)) by (nonlinear_arith);
    let is_degraded = (summary.failure_count as u128) * 10_000
        >= (config.degraded_failure_rate_bp as u128) * (summary.sample_count as u128)
        || summary.latency_ms.p95 >= config.degraded_p95_latency_ms || summary.jitter_ms >= 300;
    if is_degraded {
        SnapshotState {
            overall: OverallState::Degraded,
            network: NetworkLayerState::Connected,
            internet: InternetStatus::Unknown,
            quality: QualityLayerState::Unstable,
            score,
            reason: "high_latency_or_recent_failures".to_owned(),
        }
    } else {
        SnapshotState {
            overall: OverallState::Online,
            network: NetworkLayerState::Connected,
            internet: InternetStatus::Unknown,
            quality: QualityLayerState::Stable,
            score,
            reason: "network_stable".to_owned(),
        }
    }
}

/// The verdict on a target's window. Without an interface the state is offline. With one, and
/// without samples, it is unknown. With samples: a run of trailing failures as long as the
/// offline threshold (at least one) makes the target unreachable; otherwise a failure rate at or
/// above the degraded rate (15 % where none is set, at most 100 %), a p95 latency at or above the
/// degraded latency (800 ms where none is set), or a jitter of 300 ms or more makes it degraded
/// and unstable; otherwise it is online and stable. The score stays within 0..=100.
pub proof fn lemma_state_verdict(has_interface: bool, s: QualitySummary, config: StateConfig)
    ensures
        ({
            let (overall, network, quality, score, reason) = evaluate_state_spec(has_interface, s, config);
            let rate_bp: int = if config.degraded_failure_rate_bp == 0 {
                1500
            } else if config.degraded_failure_rate_bp > 10_000 {
                10_000
            } else {
                config.degraded_failure_rate_bp as int
            };
            let p95_limit: int = if config.degraded_p95_latency_ms == 0 {
                800
            } else {
                config.degraded_p95_latency_ms as int
            };
            let offline: int = if config.offline_consecutive_failures == 0 {
                1
            } else {
                config.offline_consecutive_failures as int
            };
            let high_failure_rate = s.failure_count * 10_000 >= rate_bp * s.sample_count;
            let slow = s.latency_ms.p95 >= p95_limit || s.jitter_ms >= 300;
            let judged = has_interface && s.sample_count > 0 && s.consecutive_failures < offline;
            &&& 0 <= score <= 100
            &&& !has_interface ==> overall == OverallState::Offline && network == NetworkLayerState::Disconnected
                && quality == QualityLayerState::Unknown && reason == "no_available_interface"@
            &&& has_interface ==> network == NetworkLayerState::Connected
            &&& (has_interface && s.sample_count == 0) ==> overall == OverallState::Unknown && quality
                == QualityLayerState::Unknown && reason == "insufficient_data"@
            &&& (has_interface && s.sample_count > 0 && s.consecutive_failures >= offline) ==> overall
                == OverallState::LocalOnly && quality == QualityLayerState::Unreachable && reason
                == "target_unreachable"@
            &&& (judged && (high_failure_rate || slow)) ==> overall == OverallState::Degraded && quality
                == QualityLayerState::Unstable && reason == "high_latency_or_recent_failures"@
            &&& (judged && !high_failure_rate && !slow) ==> overall == OverallState::Online && quality
                == QualityLayerState::Stable && reason == "network_stable"@
        }),
{
}

} // verus!
