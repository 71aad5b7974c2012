use vstd::prelude::*;

use std::hash::Hasher;
use vstd::string::StringSliceAdditionalSpecFns;
use vstd::std_specs::hash::DefaultHasherAdditionalSpecFns;

use crate::models::{ProbeStatus, TargetQualityState};

verus! {

/// Retry interval after the first and second consecutive failure, in milliseconds.
pub const FAST_FAILURE_INTERVAL_MS: u64 = 3_000;
/// Retry interval while the target answers but its quality is unstable.
pub const UNSTABLE_QUALITY_INTERVAL_MS: u64 = 5_000;
/// Interval of the single fast confirmation probe after a recovery.
pub const RECOVERY_CONFIRM_INTERVAL_MS: u64 = 3_000;

/// The back-off steps used from the third consecutive failure on.
pub open spec fn failure_backoff_ms(step: int) -> u64 {
    if step <= 0 {
        10_000
    } else if step == 1 {
        20_000
    } else if step == 2 {
        40_000
    } else {
        60_000
    }
}

#[derive(Debug, Clone, Copy, PartialEq, Eq, Structural)]
pub enum TargetScheduleMode {
    Verifying,
    Healthy,
    Suspect,
    Unavailable,
    Recovering,
    Suspended,
}

/// The probing schedule of one reachability target.
///
/// Times are milliseconds on a monotonic clock chosen by the caller.
#[derive(Debug, Clone, Copy)]
pub struct TargetSchedule {
    mode: TargetScheduleMode,
    next_probe_at: u64,
    consecutive_failures: usize,
    consecutive_recovery_successes: usize,
    probe_sequence: u64,
}

/// The probe sequence number after one more probe, saturating.
pub open spec fn next_sequence(sequence: u64) -> u64 {
    if sequence == u64::MAX { u64::MAX } else { (sequence + 1) as u64 }
}

pub open spec fn min_u64(a: u64, b: u64) -> u64 {
    if a <= b { a } else { b }
}

/// The jittered interval: between 90 % and 110 % of `base`, chosen by `hash`, at least 1 ms.
pub open spec fn jittered_interval_spec(base_ms: u64, hash: u64) -> u64 {
    let percent = 90 + (hash % 21) as int;
    let millis = base_ms as int * percent / 100;
    let clamped = if millis > u64::MAX as int { u64::MAX as int } else { millis };
    if clamped < 1 { 1 } else { clamped as u64 }
}

/// The largest interval that one recorded result can schedule.
pub open spec fn max_interval_ms(base_ms: u64) -> int {
    let jittered = base_ms as int * 110 / 100;
    let j = if jittered < 1 { 1 } else { jittered };
    if j > 60_000 { j } else { 60_000 }
}

impl TargetSchedule {
    pub closed spec fn spec_mode(&self) -> TargetScheduleMode {
        self.mode
    }

    pub closed spec fn spec_next_probe_at(&self) -> u64 {
        self.next_probe_at
    }

    pub closed spec fn spec_consecutive_failures(&self) -> usize {
        self.consecutive_failures
    }

    pub closed spec fn spec_recovery_successes(&self) -> usize {
        self.consecutive_recovery_successes
    }

    pub closed spec fn spec_probe_sequence(&self) -> u64 {
        self.probe_sequence
    }

    pub fn new(now: u64) -> (s: Self)
        ensures
            s.spec_mode() == TargetScheduleMode::Verifying,
            s.spec_next_probe_at() == now,
            s.spec_consecutive_failures() == 0,
            s.spec_recovery_successes() == 0,
            s.spec_probe_sequence() == 0,
    {
        TargetSchedule {
            mode: TargetScheduleMode::Verifying,
            next_probe_at: now,
            consecutive_failures: 0,
            consecutive_recovery_successes: 0,
            probe_sequence: 0,
        }
    }

    pub fn mode(&self) -> (m: TargetScheduleMode)
        ensures
            m == self.spec_mode(),
    {
        self.mode
    }

    pub fn consecutive_failures(&self) -> (n: usize)
        ensures
            n == self.spec_consecutive_failures(),
    {
        self.consecutive_failures
    }

    pub fn reset(&mut self, now: u64)
        ensures
            final(self).spec_mode() == TargetScheduleMode::Verifying,
            final(self).spec_next_probe_at() == now,
            final(self).spec_consecutive_failures() == 0,
            final(self).spec_recovery_successes() == 0,
            final(self).spec_probe_sequence() == 0,
    {
        *self = Self::new(now);
    }

    pub fn suspend(&mut self)
        ensures
            final(self).spec_mode() == TargetScheduleMode::Suspended,
            final(self).spec_consecutive_failures() == 0,
            final(self).spec_recovery_successes() == 0,
            final(self).spec_next_probe_at() == old(self).spec_next_probe_at(),
            final(self).spec_probe_sequence() == old(self).spec_probe_sequence(),
    {
        self.mode = TargetScheduleMode::Suspended;
        self.consecutive_failures = 0;
        self.consecutive_recovery_successes = 0;
    }

    pub fn is_suspended(&self) -> (b: bool)
        ensures
            b == (self.spec_mode() == TargetScheduleMode::Suspended),
    {
        self.mode == TargetScheduleMode::Suspended
    }

    pub fn is_due(&self, now: u64) -> (b: bool)
        ensures
            b == (self.spec_mode() != TargetScheduleMode::Suspended && now >= self.spec_next_probe_at()),
    {
        !self.is_suspended() && now >= self.next_probe_at
    }

    /// Milliseconds until the next probe is due (0 when overdue); `None` while suspended.
    pub fn next_check_in(&self, now: u64) -> (r: Option<u64>)
        ensures
            self.spec_mode() == TargetScheduleMode::Suspended ==> r is None,
            self.spec_mode() != TargetScheduleMode::Suspended ==> r == Some(
                if self.spec_next_probe_at() >= now { (self.spec_next_probe_at() - now) as u64 } else { 0u64 },
            ),
    {
        if self.is_suspended() {
            None
        } else if self.next_probe_at >= now {
            Some(self.next_probe_at - now)
        } else {
            Some(0)
        }
    }

    /// Records one probe result and schedules the next probe.
    ///
    /// `hash` is the value that spreads the probes of healthy targets (see
    /// [`jitter_hash`]); every branch but the healthy one ignores it.
    pub fn record_result_with_hash(
        &mut self,
        status: ProbeStatus,
        quality: TargetQualityState,
        base_interval_ms: u64,
        now: u64,
        hash: u64,
    )
        requires
            now as int + max_interval_ms(base_interval_ms) <= u64::MAX,
        ensures
            final(self).spec_probe_sequence() == (if old(self).spec_probe_sequence() == u64::MAX {
                u64::MAX
            } else {
                (old(self).spec_probe_sequence() + 1) as u64
            }),
            record_outcome(
                *old(self),
                status,
                quality,
                base_interval_ms,
                now,
                hash,
                final(self).spec_mode(),
                final(self).spec_next_probe_at(),
                final(self).spec_consecutive_failures(),
                final(self).spec_recovery_successes(),
            ),
    {
        let ghost before = *self;
        if self.probe_sequence < u64::MAX {
            self.probe_sequence = self.probe_sequence + 1;
        }
        match status {
            ProbeStatus::Failed => {
                let interval = self.record_failure(base_interval_ms);
                self.next_probe_at = now + interval;
            },
            ProbeStatus::Success => {
                let interval = self.record_success(quality, base_interval_ms, hash);
                self.next_probe_at = now + interval;
                assert(success_outcome(
                    before,
                    quality,
                    base_interval_ms,
                    hash,
                    self.spec_mode(),
                    interval,
                    self.spec_recovery_successes(),
                ));
            },
        }
    }

    /// Records one probe result of `target_id`, drawing the jitter of healthy
    /// targets from a hash of the target id and the probe sequence number.
    pub fn record_result(
        &mut self,
        target_id: &str,
        status: ProbeStatus,
        quality: TargetQualityState,
        base_interval_ms: u64,
        now: u64,
    )
        requires
            now as int + max_interval_ms(base_interval_ms) <= u64::MAX,
        ensures
            final(self).spec_probe_sequence() == next_sequence(old(self).spec_probe_sequence()),
            record_outcome(
                *old(self),
                status,
                quality,
                base_interval_ms,
                now,
                jitter_hash_spec(
                    target_id.spec_bytes(),
                    next_sequence(old(self).spec_probe_sequence()),
                ),
                final(self).spec_mode(),
                final(self).spec_next_probe_at(),
                final(self).spec_consecutive_failures(),
                final(self).spec_recovery_successes(),
            ),
    {
        let sequence = if self.probe_sequence < u64::MAX {
            self.probe_sequence + 1
        } else {
            u64::MAX
        };
        let hash = jitter_hash(target_id, sequence);
        self.record_result_with_hash(status, quality, base_interval_ms, now, hash);
    }

    fn record_failure(&mut self, base_interval_ms: u64) -> (interval: u64)
        ensures
            final(self).spec_consecutive_failures() == (if old(self).spec_consecutive_failures()
                == usize::MAX {
                usize::MAX
            } else {
                (old(self).spec_consecutive_failures() + 1) as usize
            }),
            final(self).spec_recovery_successes() == 0,
            final(self).spec_probe_sequence() == old(self).spec_probe_sequence(),
            interval <= max_interval_ms(base_interval_ms),
            final(self).spec_consecutive_failures() < 3 ==> final(self).spec_mode()
                == TargetScheduleMode::Suspect && interval == min_u64(
                FAST_FAILURE_INTERVAL_MS,
                base_interval_ms,
            ),
            final(self).spec_consecutive_failures() >= 3 ==> final(self).spec_mode()
                == TargetScheduleMode::Unavailable && interval == failure_backoff_ms(
                final(self).spec_consecutive_failures() - 3,
            ),
    {
        if self.consecutive_failures < usize::MAX {
            self.consecutive_failures = self.consecutive_failures + 1;
        }
        self.consecutive_recovery_successes = 0;

        if self.consecutive_failures < 3 {
            self.mode = TargetScheduleMode::Suspect;
            return if FAST_FAILURE_INTERVAL_MS <= base_interval_ms {
                FAST_FAILURE_INTERVAL_MS
            } else {
                base_interval_ms
            };
        }
        self.mode = TargetScheduleMode::Unavailable;
        let step = self.consecutive_failures - 3;
        if step == 0 {
            10_000
        } else if step == 1 {
            20_000
        } else if step == 2 {
            40_000
        } else {
            60_000
        }
    }

    fn record_success(&mut self, quality: TargetQualityState, base_interval_ms: u64, hash: u64) -> (interval: u64)
        ensures
            final(self).spec_consecutive_failures() == 0,
            final(self).spec_probe_sequence() == old(self).spec_probe_sequence(),
            interval <= max_interval_ms(base_interval_ms),
            success_outcome(
                *old(self),
                quality,
                base_interval_ms,
                hash,
                final(self).spec_mode(),
                interval,
                final(self).spec_recovery_successes(),
            ),
    {
        let recovering = self.consecutive_failures > 0 || self.mode == TargetScheduleMode::Unavailable
            || self.mode == TargetScheduleMode::Recovering;
        self.consecutive_failures = 0;

        if quality == TargetQualityState::Unstable {
            self.mode = TargetScheduleMode::Suspect;
            self.consecutive_recovery_successes = 0;
            return if UNSTABLE_QUALITY_INTERVAL_MS <= base_interval_ms {
                UNSTABLE_QUALITY_INTERVAL_MS
            } else {
                base_interval_ms
            };
        }
        if recovering && self.consecutive_recovery_successes == 0 {
            self.mode = TargetScheduleMode::Recovering;
            self.consecutive_recovery_successes = 1;
            return if RECOVERY_CONFIRM_INTERVAL_MS <= base_interval_ms {
                RECOVERY_CONFIRM_INTERVAL_MS
            } else {
                base_interval_ms
            };
        }
        self.mode = TargetScheduleMode::Healthy;
        self.consecutive_recovery_successes = 0;
        jittered_interval(base_interval_ms, hash)
    }
}

/// What a successful probe does to the schedule `s`: mode, interval and recovery count.
pub open spec fn success_outcome(
    s: TargetSchedule,
    quality: TargetQualityState,
    base_ms: u64,
    hash: u64,
    mode: TargetScheduleMode,
    interval: u64,
    recovery_successes: usize,
) -> bool {
    let recovering = s.spec_consecutive_failures() > 0 || s.spec_mode()
        == TargetScheduleMode::Unavailable || s.spec_mode() == TargetScheduleMode::Recovering;
    if quality == TargetQualityState::Unstable {
        &&& mode == TargetScheduleMode::Suspect
        &&& recovery_successes == 0
        &&& interval == min_u64(UNSTABLE_QUALITY_INTERVAL_MS, base_ms)
    } else if recovering && s.spec_recovery_successes() == 0 {
        &&& mode == TargetScheduleMode::Recovering
        &&& recovery_successes == 1
        &&& interval == min_u64(RECOVERY_CONFIRM_INTERVAL_MS, base_ms)
    } else {
        &&& mode == TargetScheduleMode::Healthy
        &&& recovery_successes == 0
        &&& interval == jittered_interval_spec(base_ms, hash)
    }
}

/// A target that failed needs one confirming success before it counts as healthy again: the
/// first stable success after a failure leaves it recovering and brings the next probe forward,
/// and the next stable success makes it healthy.
pub proof fn lemma_recovery_needs_one_confirmation(
    failed: TargetSchedule,
    confirming: TargetSchedule,
    quality: TargetQualityState,
    base_ms: u64,
    first_hash: u64,
    second_hash: u64,
    first_mode: TargetScheduleMode,
    first_interval: u64,
    first_recovery: usize,
    second_mode: TargetScheduleMode,
    second_interval: u64,
    second_recovery: usize,
)
    requires
        failed.spec_consecutive_failures() > 0,
        failed.spec_recovery_successes() == 0,
        quality != TargetQualityState::Unstable,
        success_outcome(failed, quality, base_ms, first_hash, first_mode, first_interval, first_recovery),
        confirming.spec_mode() == first_mode,
        confirming.spec_consecutive_failures() == 0,
        confirming.spec_recovery_successes() == first_recovery,
        success_outcome(confirming, quality, base_ms, second_hash, second_mode, second_interval, second_recovery),
    ensures
        first_mode == TargetScheduleMode::Recovering,
        first_interval == min_u64(RECOVERY_CONFIRM_INTERVAL_MS, base_ms),
        second_mode == TargetScheduleMode::Healthy,
        second_interval == jittered_interval_spec(base_ms, second_hash),
{
}

/// `s` holds the fields that recording `status` in `before` at `now` left.
pub open spec fn recorded(
    before: TargetSchedule,
    status: ProbeStatus,
    quality: TargetQualityState,
    base_ms: u64,
    now: u64,
    hash: u64,
    s: TargetSchedule,
) -> bool {
    record_outcome(
        before,
        status,
        quality,
        base_ms,
        now,
        hash,
        s.spec_mode(),
        s.spec_next_probe_at(),
        s.spec_consecutive_failures(),
        s.spec_recovery_successes(),
    )
}

proof fn lemma_failure_run_counts(
    schedules: Seq<TargetSchedule>,
    nows: Seq<u64>,
    qualities: Seq<TargetQualityState>,
    hashes: Seq<u64>,
    base_ms: u64,
    k: int,
)
    requires
        schedules.len() == nows.len() + 1,
        nows.len() == qualities.len(),
        nows.len() == hashes.len(),
        nows.len() < usize::MAX,
        schedules[0].spec_consecutive_failures() == 0,
        forall|i: int|
            0 <= i < nows.len() ==> recorded(
                #[trigger] schedules[i],
                ProbeStatus::Failed,
                qualities[i],
                base_ms,
                nows[i],
                hashes[i],
                schedules[i + 1],
            ),
        0 <= k <= nows.len(),
    ensures
        schedules[k].spec_consecutive_failures() == k,
    decreases k,
{
    if k > 0 {
        lemma_failure_run_counts(schedules, nows, qualities, hashes, base_ms, k - 1);
        assert(recorded(schedules[k - 1], ProbeStatus::Failed, qualities[k - 1], base_ms, nows[k - 1], hashes[k - 1], schedules[k]));
    }
}

/// A run of failed probes backs off step by step: starting from a schedule with no failures,
/// the n-th failure in a row counts n failures, the first two bring the next probe forward to
/// `min(3 s, base)` in suspect mode, and from the third on the target is unavailable and the
/// next probe waits 10 s, 20 s, 40 s and then 60 s.
pub proof fn lemma_failures_back_off(
    schedules: Seq<TargetSchedule>,
    nows: Seq<u64>,
    qualities: Seq<TargetQualityState>,
    hashes: Seq<u64>,
    base_ms: u64,
)
    requires
        schedules.len() == nows.len() + 1,
        nows.len() == qualities.len(),
        nows.len() == hashes.len(),
        nows.len() < usize::MAX,
        schedules[0].spec_consecutive_failures() == 0,
        forall|i: int|
            0 <= i < nows.len() ==> recorded(
                #[trigger] schedules[i],
                ProbeStatus::Failed,
                qualities[i],
                base_ms,
                nows[i],
                hashes[i],
                schedules[i + 1],
            ),
    ensures
        forall|n: int|
            1 <= n <= nows.len() ==> {
                &&& (#[trigger] schedules[n]).spec_consecutive_failures() == n
                &&& n < 3 ==> schedules[n].spec_mode() == TargetScheduleMode::Suspect
                    && schedules[n].spec_next_probe_at() == nows[n - 1] + min_u64(FAST_FAILURE_INTERVAL_MS, base_ms)
                &&& n >= 3 ==> schedules[n].spec_mode() == TargetScheduleMode::Unavailable
                    && schedules[n].spec_next_probe_at() == nows[n - 1] + failure_backoff_ms(n - 3)
            },
{
    assert forall|n: int| 1 <= n <= nows.len() implies {
        &&& (#[trigger] schedules[n]).spec_consecutive_failures() == n
        &&& n < 3 ==> schedules[n].spec_mode() == TargetScheduleMode::Suspect
            && schedules[n].spec_next_probe_at() == nows[n - 1] + min_u64(FAST_FAILURE_INTERVAL_MS, base_ms)
        &&& n >= 3 ==> schedules[n].spec_mode() == TargetScheduleMode::Unavailable
            && schedules[n].spec_next_probe_at() == nows[n - 1] + failure_backoff_ms(n - 3)
    } by {
        lemma_failure_run_counts(schedules, nows, qualities, hashes, base_ms, n - 1);
        lemma_failure_run_counts(schedules, nows, qualities, hashes, base_ms, n);
        assert(recorded(schedules[n - 1], ProbeStatus::Failed, qualities[n - 1], base_ms, nows[n - 1], hashes[n - 1], schedules[n]));
    }
}

/// The state that recording `status` in schedule `s` at `now` leads to.
pub open spec fn record_outcome(
    s: TargetSchedule,
    status: ProbeStatus,
    quality: TargetQualityState,
    base_ms: u64,
    now: u64,
    hash: u64,
    mode: TargetScheduleMode,
    next_probe_at: u64,
    failures: usize,
    recovery_successes: usize,
) -> bool {
    match status {
        ProbeStatus::Failed => {
            let f = if s.spec_consecutive_failures() == usize::MAX {
                usize::MAX
            } else {
                (s.spec_consecutive_failures() + 1) as usize
            };
            &&& failures == f
            &&& recovery_successes == 0
            &&& f < 3 ==> mode == TargetScheduleMode::Suspect && next_probe_at == now + min_u64(
                FAST_FAILURE_INTERVAL_MS,
                base_ms,
            )
            &&& f >= 3 ==> mode == TargetScheduleMode::Unavailable && next_probe_at == now
                + failure_backoff_ms(f - 3)
        },
        ProbeStatus::Success => {
            &&& failures == 0
            &&& exists|interval: u64|
                next_probe_at == now + interval && #[trigger] success_outcome(
                    s,
                    quality,
                    base_ms,
                    hash,
                    mode,
                    interval,
                    recovery_successes,
                )
        },
    }
}

/// `base` scaled to 90..=110 % by `hash % 21`, saturating, and at least 1 ms.
pub fn jittered_interval(base_ms: u64, hash: u64) -> (r: u64)
    ensures
        r == jittered_interval_spec(base_ms, hash),
        r >= 1,
        r <= max_interval_ms(base_ms),
{
    let percent: u128 = 90 + (hash % 21) as u128;
    assert((base_ms as u128) * percent <= (u64::MAX as u128) * 110) by (nonlinear_arith)
        requires
            percent <= 110,
    ;
    let scaled: u128 = (base_ms as u128) * percent;
    assert(scaled <= (u64::MAX as u128) * 110) by (nonlinear_arith)
        requires
            scaled == (base_ms as u128) * percent,
            percent <= 110,
    ;
    let millis: u128 = scaled / 100;
    assert(millis <= base_ms as int * 110 / 100) by (nonlinear_arith)
        requires
            millis == scaled / 100,
            scaled == (base_ms as u128) * percent,
            percent <= 110,
    ;
    let clamped: u64 = if millis > u64::MAX as u128 {
        u64::MAX
    } else {
        millis as u64
    };
    if clamped < 1 {
        1
    } else {
        clamped
    }
}

/// The little-endian bytes of `value`, as `u64::hash` feeds them to std's `DefaultHasher`.
pub open spec fn le_bytes(value: u64) -> Seq<u8> {
    Seq::new(8, |i: int| ((value >> (8 * i) as u64) & 0xff) as u8)
}

/// The hash of `(target_id, sequence)` that std's `DefaultHasher` gives: the id's bytes,
/// the `0xff` terminator that `str::hash` appends, then the sequence number's bytes.
pub open spec fn jitter_hash_spec(target_id: Seq<u8>, sequence: u64) -> u64 {
    std::collections::hash_map::DefaultHasher::spec_finish(
        seq![target_id, seq![0xffu8], le_bytes(sequence)],
    )
}

pub fn jitter_hash(target_id: &str, sequence: u64) -> (h: u64)
    ensures
        h == jitter_hash_spec(target_id.spec_bytes(), sequence),
{
    let mut bytes: Vec<u8> = Vec::new();
    let mut i: u64 = 0;
    while i < 8
        invariant
            i <= 8,
            bytes@.len() == i,
            forall|j: int| 0 <= j < i ==> bytes@[j] == le_bytes(sequence)[j],
        decreases 8 - i,
    {
        let byte: u8 = (#[verifier::truncate] (((sequence >> (8 * i)) & 0xff) as u8));
        bytes.push(byte);
        i = i + 1;
    }
    assert(bytes@ =~= le_bytes(sequence));
    let terminator: Vec<u8> = vec![0xff];
    assert(terminator@ =~= seq![0xffu8]);
    let mut hasher = std::collections::hash_map::DefaultHasher::new();
    let id_bytes = target_id.as_bytes();
    hasher.write(id_bytes);
    let t = terminator.as_slice();
    assert(t@ =~= seq![0xffu8]);
    hasher.write(t);
    let b = bytes.as_slice();
    hasher.write(b);
    assert(hasher@ =~= seq![target_id.spec_bytes(), seq![0xffu8], le_bytes(sequence)]);
    hasher.finish()
}

proof fn lemma_jitter_bounds(base_ms: u64, hash: u64)
    ensures
        jittered_interval_spec(base_ms, hash) >= 1,
        jittered_interval_spec(base_ms, hash) >= base_ms as int * 90 / 100,
        jittered_interval_spec(base_ms, hash) <= (if base_ms as int * 110 / 100 < 1 {
            1
        } else {
            base_ms as int * 110 / 100
        }),
{
    let percent = 90 + (hash % 21) as int;
    let b = base_ms as int;
    assert(b * 90 / 100 <= b * percent / 100 <= b * 110 / 100) by (nonlinear_arith)
        requires
            90 <= percent <= 110,
            b >= 0,
    ;
    assert(b * 90 / 100 <= u64::MAX) by (nonlinear_arith)
        requires
            0 <= b <= u64::MAX,
    ;
}

/// What a successful probe does to a schedule. The failure count is cleared. With unstable
/// quality the target is suspect and is probed again after 5 s (or the base interval where that
/// is shorter), with no recovery under way. Otherwise, a target that was failing, unavailable or
/// recovering and has no confirming success yet is recovering, with one confirming success and
/// the next probe after 3 s (or the base interval where shorter); and any other is healthy, with
/// no recovery under way and the next probe between 90 % and 110 % of the base interval (at
/// least 1 ms).
pub proof fn lemma_success_schedule(
    before: TargetSchedule,
    quality: TargetQualityState,
    base_ms: u64,
    now: u64,
    hash: u64,
    after: TargetSchedule,
)
    requires
        recorded(before, ProbeStatus::Success, quality, base_ms, now, hash, after),
    ensures
        after.spec_consecutive_failures() == 0,
        after.spec_next_probe_at() >= now,
        ({
            let wait = after.spec_next_probe_at() - now;
            let recovering = before.spec_consecutive_failures() > 0 || before.spec_mode()
                == TargetScheduleMode::Unavailable || before.spec_mode() == TargetScheduleMode::Recovering;
            &&& quality == TargetQualityState::Unstable ==> after.spec_mode() == TargetScheduleMode::Suspect
                && after.spec_recovery_successes() == 0 && wait == (if base_ms < 5_000 { base_ms as int } else { 5_000 })
            &&& (quality != TargetQualityState::Unstable && recovering && before.spec_recovery_successes() == 0) ==> after.spec_mode()
                == TargetScheduleMode::Recovering && after.spec_recovery_successes() == 1 && wait == (if base_ms < 3_000 {
                base_ms as int
            } else {
                3_000
            })
            &&& (quality != TargetQualityState::Unstable && !(recovering && before.spec_recovery_successes() == 0))
                ==> after.spec_mode() == TargetScheduleMode::Healthy && after.spec_recovery_successes() == 0 && wait >= 1
                && wait >= base_ms as int * 90 / 100 && wait <= (if base_ms as int * 110 / 100 < 1 {
                1
            } else {
                base_ms as int * 110 / 100
            })
        }),
{
    let interval = choose|interval: u64|
        after.spec_next_probe_at() == now + interval && #[trigger] success_outcome(
            before,
            quality,
            base_ms,
            hash,
            after.spec_mode(),
            interval,
            after.spec_recovery_successes(),
        );
    lemma_jitter_bounds(base_ms, hash);
}

} // verus!
