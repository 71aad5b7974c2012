use vstd::prelude::*;

use crate::config::NetWatcherConfig;
use crate::models::{
    opt_str, strs, InterfaceStatus, InterfaceType, InternetProbeResult, InternetProbeStatus, InternetSnapshot,
    InternetStatus, InternetSystemHint, LatencySummary, NetWatcherSnapshot, NetworkInterface, NetworkLayerState,
    NetworkSnapshot, OverallState, ProbeError, ProbeResult, ProbeStatus, ProbeTarget, ProbeTargetType,
    QualityLayerState, QualitySummary, ReachabilityConfigSnapshot, ReachabilitySnapshot, ReachabilityStatus,
    ReachabilityTargetSnapshot, ReachabilityTargetState, SnapshotChanges, SnapshotMeta, SnapshotState,
    HttpProbeResult, TargetQualityState, is_unchecked,
};
use crate::outside::{is_v4_uuid_text, now_utc, random_uuid};
use crate::text::{chars_of, concat_chars, string_of};

verus! {

pub fn string_eq(a: &String, b: &String) -> (r: bool)
    ensures
        r == (a@ == b@),
{
    let x = chars_of(a.as_str());
    let y = chars_of(b.as_str());
    crate::text::same_chars(&x, &y)
}

fn opt_string_eq(a: &Option<String>, b: &Option<String>) -> (r: bool)
    ensures
        r == (opt_str(*a) == opt_str(*b)),
{
    match (a, b) {
        (None, None) => true,
        (Some(x), Some(y)) => string_eq(x, y),
        _ => false,
    }
}

fn strings_eq(a: &Vec<String>, b: &Vec<String>) -> (r: bool)
    ensures
        r == (strs(a@) == strs(b@)),
{
    if a.len() != b.len() {
        assert(strs(a@).len() != strs(b@).len());
        return false;
    }
    let mut i: usize = 0;
    while i < a.len()
        invariant
            a.len() == b.len(),
            i <= a.len(),
            forall|j: int| 0 <= j < i ==> a@[j]@ == b@[j]@,
        decreases a.len() - i,
    {
        if !string_eq(&a[i], &b[i]) {
            assert(strs(a@)[i as int] != strs(b@)[i as int]);
            return false;
        }
        i = i + 1;
    }
    assert(strs(a@) =~= strs(b@));
    true
}

/// The values of an interface.
pub open spec fn interface_view(i: NetworkInterface) -> (
    Seq<char>,
    Seq<char>,
    Seq<char>,
    InterfaceType,
    InterfaceStatus,
    bool,
    Seq<Seq<char>>,
    Seq<Seq<char>>,
    Option<Seq<char>>,
    Option<Seq<char>>,
    Seq<Seq<char>>,
) {
    (
        i.id@,
        i.name@,
        i.display_name@,
        i.interface_type,
        i.status,
        i.is_primary,
        strs(i.addresses.ipv4@),
        strs(i.addresses.ipv6@),
        opt_str(i.addresses.mac),
        opt_str(i.gateway),
        strs(i.dns_servers@),
    )
}

pub open spec fn interfaces_view(s: Seq<NetworkInterface>) -> Seq<
    (
        Seq<char>,
        Seq<char>,
        Seq<char>,
        InterfaceType,
        InterfaceStatus,
        bool,
        Seq<Seq<char>>,
        Seq<Seq<char>>,
        Option<Seq<char>>,
        Option<Seq<char>>,
        Seq<Seq<char>>,
    ),
> {
    s.map_values(|i: NetworkInterface| interface_view(i))
}

fn interface_eq(a: &NetworkInterface, b: &NetworkInterface) -> (r: bool)
    ensures
        r == (interface_view(*a) == interface_view(*b)),
{
    string_eq(&a.id, &b.id) && string_eq(&a.name, &b.name) && string_eq(&a.display_name, &b.display_name)
        && a.interface_type == b.interface_type && a.status == b.status && a.is_primary == b.is_primary
        && strings_eq(&a.addresses.ipv4, &b.addresses.ipv4) && strings_eq(&a.addresses.ipv6, &b.addresses.ipv6)
        && opt_string_eq(&a.addresses.mac, &b.addresses.mac) && opt_string_eq(&a.gateway, &b.gateway)
        && strings_eq(&a.dns_servers, &b.dns_servers)
}

pub fn interfaces_eq(a: &Vec<NetworkInterface>, b: &Vec<NetworkInterface>) -> (r: bool)
    ensures
        r == (interfaces_view(a@) == interfaces_view(b@)),
{
    if a.len() != b.len() {
        assert(interfaces_view(a@).len() != interfaces_view(b@).len());
        return false;
    }
    let mut i: usize = 0;
    while i < a.len()
        invariant
            a.len() == b.len(),
            i <= a.len(),
            forall|j: int| 0 <= j < i ==> interface_view(a@[j]) == interface_view(b@[j]),
        decreases a.len() - i,
    {
        if !interface_eq(&a[i], &b[i]) {
            assert(interfaces_view(a@)[i as int] != interfaces_view(b@)[i as int]);
            return false;
        }
        i = i + 1;
    }
    assert(interfaces_view(a@) =~= interfaces_view(b@));
    true
}

pub open spec fn error_view(e: Option<ProbeError>) -> Option<(Seq<char>, Seq<char>)> {
    match e {
        Some(e) => Some((e.code@, e.message@)),
        None => None,
    }
}

fn error_eq(a: &Option<ProbeError>, b: &Option<ProbeError>) -> (r: bool)
    ensures
        r == (error_view(*a) == error_view(*b)),
{
    match (a, b) {
        (None, None) => true,
        (Some(x), Some(y)) => string_eq(&x.code, &y.code) && string_eq(&x.message, &y.message),
        _ => false,
    }
}

/// What an internet probe found, without its timing.
pub open spec fn internet_probe_view(p: Option<InternetProbeResult>) -> Option<(InternetProbeStatus, Option<u16>, Option<(Seq<char>, Seq<char>)>)> {
    match p {
        Some(p) => Some((p.status, p.http_status, error_view(p.error))),
        None => None,
    }
}

/// The internet layer changed in what it says: its status, verification, hint, what its probe
/// found, captive portal, failure count or reason. When it was checked and how long the probe
/// took do not count.
pub open spec fn internet_changed_spec(a: InternetSnapshot, b: InternetSnapshot) -> bool {
    a.status != b.status || a.verified != b.verified || a.system_hint != b.system_hint || internet_probe_view(
        a.active_probe,
    ) != internet_probe_view(b.active_probe) || a.captive_portal != b.captive_portal || a.consecutive_failures
        != b.consecutive_failures || a.reason@ != b.reason@
}

pub fn internet_changed(previous: &InternetSnapshot, next: &InternetSnapshot) -> (r: bool)
    ensures
        r == internet_changed_spec(*previous, *next),
{
    let probes_differ = match (&previous.active_probe, &next.active_probe) {
        (None, None) => false,
        (Some(a), Some(b)) => !(a.status == b.status && a.http_status == b.http_status && error_eq(&a.error, &b.error)),
        _ => true,
    };
    previous.status != next.status || previous.verified != next.verified || previous.system_hint != next.system_hint
        || probes_differ || previous.captive_portal != next.captive_portal || previous.consecutive_failures
        != next.consecutive_failures || !string_eq(&previous.reason, &next.reason)
}

/// What a probe found, without its identity and times.
pub open spec fn probe_view(p: Option<ProbeResult>) -> Option<(ProbeStatus, Option<HttpProbeResult>, Option<(Seq<char>, Seq<char>)>)> {
    match p {
        Some(p) => Some((p.status, p.http, error_view(p.error))),
        None => None,
    }
}

pub fn probe_changed(previous: &Option<ProbeResult>, next: &Option<ProbeResult>) -> (r: bool)
    ensures
        r == (probe_view(*previous) != probe_view(*next)),
{
    match (previous, next) {
        (None, None) => false,
        (Some(a), Some(b)) => !(a.status == b.status && a.http == b.http && error_eq(&a.error, &b.error)),
        _ => true,
    }
}

/// What a target snapshot says, without probe identities and times and without when the last
/// success and failure were. The failure rate is the failure count over the sample count, so
/// the counts stand for it.
pub open spec fn target_view(t: ReachabilityTargetSnapshot) -> (
    Seq<char>,
    (ReachabilityStatus, TargetQualityState, Seq<char>),
    (ProbeTargetType, Seq<char>),
    Option<(ProbeStatus, Option<HttpProbeResult>, Option<(Seq<char>, Seq<char>)>)>,
    (usize, usize, usize, LatencySummary, u64, usize, Option<Seq<char>>),
) {
    (
        t.id@,
        (t.state.reachability, t.state.quality, t.state.reason@),
        (t.target.target_type, t.target.url@),
        probe_view(t.current_probe),
        (
            t.summary.sample_count,
            t.summary.success_count,
            t.summary.failure_count,
            t.summary.latency_ms,
            t.summary.jitter_ms,
            t.summary.consecutive_failures,
            opt_str(t.summary.last_failure_reason),
        ),
    )
}

pub fn target_changed(previous: &ReachabilityTargetSnapshot, next: &ReachabilityTargetSnapshot) -> (r: bool)
    ensures
        r == (target_view(*previous) != target_view(*next)),
{
    !string_eq(&previous.id, &next.id) || previous.state.reachability != next.state.reachability
        || previous.state.quality != next.state.quality || !string_eq(&previous.state.reason, &next.state.reason)
        || previous.target.target_type != next.target.target_type || !string_eq(&previous.target.url, &next.target.url)
        || probe_changed(&previous.current_probe, &next.current_probe) || previous.summary.sample_count
        != next.summary.sample_count || previous.summary.success_count != next.summary.success_count
        || previous.summary.failure_count != next.summary.failure_count || previous.summary.latency_ms
        != next.summary.latency_ms || previous.summary.jitter_ms != next.summary.jitter_ms
        || previous.summary.consecutive_failures != next.summary.consecutive_failures || !opt_string_eq(
        &previous.summary.last_failure_reason,
        &next.summary.last_failure_reason,
    )
}

/// The first target of `s` with id `id`.
pub open spec fn first_with_id(s: Seq<ReachabilityTargetSnapshot>, id: Seq<char>) -> Option<ReachabilityTargetSnapshot>
    decreases s.len(),
{
    if s.len() == 0 {
        None
    } else if s[0].id@ == id {
        Some(s[0])
    } else {
        first_with_id(s.drop_first(), id)
    }
}

/// A target of `next` is reported when no previous target has its id, or when the first that
/// has it says something else.
pub open spec fn target_reported(previous: Seq<ReachabilityTargetSnapshot>, t: ReachabilityTargetSnapshot) -> bool {
    match first_with_id(previous, t.id@) {
        Some(p) => target_view(p) != target_view(t),
        None => true,
    }
}

pub open spec fn has_id(s: Seq<ReachabilityTargetSnapshot>, id: Seq<char>) -> bool {
    exists|k: int| 0 <= k < s.len() && (#[trigger] s[k]).id@ == id
}

/// The ids of the targets that changed: those of `next` that are new or say something else, in
/// their order, then those of `previous` that are gone, in theirs.
pub open spec fn changed_target_ids_spec(previous: Seq<ReachabilityTargetSnapshot>, next: Seq<ReachabilityTargetSnapshot>) -> Seq<Seq<char>> {
    next.filter(|t: ReachabilityTargetSnapshot| target_reported(previous, t)).map_values(|t: ReachabilityTargetSnapshot| t.id@)
        + previous.filter(|t: ReachabilityTargetSnapshot| !has_id(next, t.id@)).map_values(
        |t: ReachabilityTargetSnapshot| t.id@,
    )
}

fn find_first(s: &Vec<ReachabilityTargetSnapshot>, id: &String) -> (r: Option<usize>)
    ensures
        match r {
            Some(i) => i < s@.len() && first_with_id(s@, id@) == Some(s@[i as int]),
            None => first_with_id(s@, id@) is None,
        },
{
    let mut i: usize = 0;
    assert(s@.skip(0) =~= s@);
    while i < s.len()
        invariant
            i <= s.len(),
            first_with_id(s@, id@) == first_with_id(s@.skip(i as int), id@),
        decreases s.len() - i,
    {
        assert(s@.skip(i as int)[0] == s@[i as int]);
        if string_eq(&s[i].id, id) {
            return Some(i);
        }
        assert(s@.skip(i as int).drop_first() =~= s@.skip(i + 1));
        i = i + 1;
    }
    None
}

fn contains_id(s: &Vec<ReachabilityTargetSnapshot>, id: &String) -> (r: bool)
    ensures
        r == has_id(s@, id@),
{
    let mut i: usize = 0;
    while i < s.len()
        invariant
            i <= s.len(),
            forall|k: int| 0 <= k < i ==> (#[trigger] s@[k]).id@ != id@,
        decreases s.len() - i,
    {
        if string_eq(&s[i].id, id) {
            return true;
        }
        i = i + 1;
    }
    false
}

pub fn changed_target_ids(previous: &Vec<ReachabilityTargetSnapshot>, next: &Vec<ReachabilityTargetSnapshot>) -> (r: Vec<String>)
    ensures
        strs(r@) == changed_target_ids_spec(previous@, next@),
{
    let ghost reported = |t: ReachabilityTargetSnapshot| target_reported(previous@, t);
    let ghost gone = |t: ReachabilityTargetSnapshot| !has_id(next@, t.id@);
    let ghost idv = |t: ReachabilityTargetSnapshot| t.id@;
    let mut changed: Vec<String> = Vec::new();
    let mut i: usize = 0;
    while i < next.len()
        invariant
            i <= next.len(),
            reported == (|t: ReachabilityTargetSnapshot| target_reported(previous@, t)),
            idv == (|t: ReachabilityTargetSnapshot| t.id@),
            strs(changed@) == next@.take(i as int).filter(reported).map_values(idv),
        decreases next.len() - i,
    {
        assert(next@.take(i + 1) =~= next@.take(i as int).push(next@[i as int]));
        proof {
            next@.take(i as int).lemma_filter_push(next@[i as int], reported);
        }
        let report = match find_first(previous, &next[i].id) {
            Some(p) => target_changed(&previous[p], &next[i]),
            None => true,
        };
        let ghost before = changed@;
        if report {
            changed.push(next[i].id.clone());
            assert(strs(changed@) =~= strs(before).push(next@[i as int].id@));
            assert(next@.take(i as int).filter(reported).push(next@[i as int]).map_values(idv) =~= next@.take(
                i as int,
            ).filter(reported).map_values(idv).push(next@[i as int].id@));
        }
        i = i + 1;
    }
    assert(next@.take(next.len() as int) =~= next@);
    let ghost first_part = changed@;
    let mut j: usize = 0;
    while j < previous.len()
        invariant
            j <= previous.len(),
            gone == (|t: ReachabilityTargetSnapshot| !has_id(next@, t.id@)),
            idv == (|t: ReachabilityTargetSnapshot| t.id@),
            strs(changed@) == strs(first_part) + previous@.take(j as int).filter(gone).map_values(idv),
        decreases previous.len() - j,
    {
        assert(previous@.take(j + 1) =~= previous@.take(j as int).push(previous@[j as int]));
        proof {
            previous@.take(j as int).lemma_filter_push(previous@[j as int], gone);
        }
        let ghost before = changed@;
        if !contains_id(next, &previous[j].id) {
            changed.push(previous[j].id.clone());
            assert(strs(changed@) =~= strs(before).push(previous@[j as int].id@));
            assert(previous@.take(j as int).filter(gone).push(previous@[j as int]).map_values(idv) =~= previous@.take(
                j as int,
            ).filter(gone).map_values(idv).push(previous@[j as int].id@));
        }
        j = j + 1;
    }
    assert(previous@.take(previous.len() as int) =~= previous@);
    changed
}

/// `s`, with `name` added at its end when `changed`.
pub open spec fn with_field(s: Seq<Seq<char>>, changed: bool, name: Seq<char>) -> Seq<Seq<char>> {
    if changed {
        s.push(name)
    } else {
        s
    }
}

/// The names of the parts of the snapshot that changed, in a fixed order: `network` for the
/// interfaces or the primary interface, `network.internet`, each reachability setting,
/// `reachability.targets`, and the state's overall verdict, network layer, internet status and
/// reason. Ids, timestamps, the score and the quality layer are not compared.
pub open spec fn changed_fields_spec(previous: NetWatcherSnapshot, next: NetWatcherSnapshot) -> Seq<Seq<char>> {
    let f1 = with_field(
        Seq::empty(),
        opt_str(previous.network.primary_interface_id) != opt_str(next.network.primary_interface_id)
            || interfaces_view(previous.network.interfaces@) != interfaces_view(next.network.interfaces@),
        "network"@,
    );
    let f2 = with_field(f1, internet_changed_spec(previous.network.internet, next.network.internet), "network.internet"@);
    let f3 = with_field(
        f2,
        previous.reachability.config.interval_ms != next.reachability.config.interval_ms,
        "reachability.config.intervalMs"@,
    );
    let f4 = with_field(
        f3,
        previous.reachability.config.window_size != next.reachability.config.window_size,
        "reachability.config.windowSize"@,
    );
    let f5 = with_field(
        f4,
        previous.reachability.config.timeout_ms != next.reachability.config.timeout_ms,
        "reachability.config.timeoutMs"@,
    );
    let f6 = with_field(
        f5,
        changed_target_ids_spec(previous.reachability.targets@, next.reachability.targets@).len() > 0,
        "reachability.targets"@,
    );
    let f7 = with_field(f6, previous.state.overall != next.state.overall, "state.overall"@);
    let f8 = with_field(f7, previous.state.network != next.state.network, "state.network"@);
    let f9 = with_field(f8, previous.state.internet != next.state.internet, "state.internet"@);
    with_field(f9, previous.state.reason@ != next.state.reason@, "state.reason"@)
}

fn push_field(fields: &mut Vec<String>, changed: bool, name: &str)
    ensures
        strs(final(fields)@) == with_field(strs(old(fields)@), changed, name@),
{
    if changed {
        let ghost before = fields@;
        fields.push(name.to_string());
        assert(strs(fields@) =~= strs(before).push(name@));
    }
}

pub fn changed_fields(previous: &NetWatcherSnapshot, next: &NetWatcherSnapshot) -> (r: Vec<String>)
    ensures
        strs(r@) == changed_fields_spec(*previous, *next),
{
    let mut fields: Vec<String> = Vec::new();
    assert(strs(fields@) =~= Seq::<Seq<char>>::empty());
    let network_changed = !opt_string_eq(&previous.network.primary_interface_id, &next.network.primary_interface_id)
        || !interfaces_eq(&previous.network.interfaces, &next.network.interfaces);
    push_field(&mut fields, network_changed, "network");
    push_field(&mut fields, internet_changed(&previous.network.internet, &next.network.internet), "network.internet");
    push_field(
        &mut fields,
        previous.reachability.config.interval_ms != next.reachability.config.interval_ms,
        "reachability.config.intervalMs",
    );
    push_field(
        &mut fields,
        previous.reachability.config.window_size != next.reachability.config.window_size,
        "reachability.config.windowSize",
    );
    push_field(
        &mut fields,
        previous.reachability.config.timeout_ms != next.reachability.config.timeout_ms,
        "reachability.config.timeoutMs",
    );
    let ids = changed_target_ids(&previous.reachability.targets, &next.reachability.targets);
    assert(strs(ids@).len() == ids@.len());
    push_field(&mut fields, ids.len() > 0, "reachability.targets");
    push_field(&mut fields, previous.state.overall != next.state.overall, "state.overall");
    push_field(&mut fields, previous.state.network != next.state.network, "state.network");
    push_field(&mut fields, previous.state.internet != next.state.internet, "state.internet");
    push_field(&mut fields, !string_eq(&previous.state.reason, &next.state.reason), "state.reason");
    fields
}

/// What a new snapshot is built from.
#[derive(Debug)]
pub struct SnapshotBuildInput {
    pub network: NetworkSnapshot,
    pub state: SnapshotState,
    pub reachability_config: ReachabilityConfigSnapshot,
    pub reachability_targets: Vec<ReachabilityTargetSnapshot>,
}

/// A snapshot id: `nw_` and a random UUID.
pub open spec fn snapshot_id_shape(id: Seq<char>) -> bool {
    id.len() == 39 && id.subrange(0, 3) == "nw_"@ && is_v4_uuid_text(id.skip(3))
}

fn snapshot_id() -> (id: String)
    ensures
        snapshot_id_shape(id@),
{
    let prefix = chars_of("nw_");
    proof {
        reveal_strlit("nw_");
    }
    let uuid = random_uuid();
    let id = concat_chars(&prefix, &chars_of(uuid.as_str()));
    assert(id@.subrange(0, 3) =~= "nw_"@);
    assert(id@.skip(3) =~= uuid@);
    string_of(&id)
}

/// The next snapshot: the new state, network and reachability, a fresh id and timestamp, and
/// what changed since `previous`.
pub fn build_snapshot(previous: &NetWatcherSnapshot, input: SnapshotBuildInput, platform: &str, plugin_version: &str) -> (r: NetWatcherSnapshot)
    ensures
        r.state == input.state,
        r.network == input.network,
        r.reachability.config == input.reachability_config,
        r.reachability.targets == input.reachability_targets,
        r.meta.platform@ == platform@,
        r.meta.plugin_version@ == plugin_version@,
        snapshot_id_shape(r.meta.snapshot_id@),
        r.changes.previous_overall == Some(previous.state.overall),
        r.changes.current_overall == input.state.overall,
        strs(r.changes.changed_fields@) == changed_fields_spec(*previous, r),
        strs(r.changes.changed_target_ids@) == changed_target_ids_spec(previous.reachability.targets@, r.reachability.targets@),
        r.changes.has_changes == (r.changes.changed_fields@.len() > 0),
{
    let current_overall = input.state.overall;
    let mut next = NetWatcherSnapshot {
        meta: SnapshotMeta {
            snapshot_id: snapshot_id(),
            timestamp: now_utc(),
            platform: platform.to_string(),
            plugin_version: plugin_version.to_string(),
        },
        state: input.state,
        network: input.network,
        reachability: ReachabilitySnapshot { config: input.reachability_config, targets: input.reachability_targets },
        changes: SnapshotChanges {
            has_changes: false,
            previous_overall: Some(previous.state.overall),
            current_overall,
            changed_fields: Vec::new(),
            changed_target_ids: Vec::new(),
        },
    };
    let changed_target_ids = changed_target_ids(&previous.reachability.targets, &next.reachability.targets);
    let changed_fields = changed_fields(previous, &next);
    let has_changes = changed_fields.len() > 0;
    next.changes =
        SnapshotChanges {
            has_changes,
            previous_overall: Some(previous.state.overall),
            current_overall,
            changed_fields,
            changed_target_ids,
        };
    next
}

/// The reason of a target before its first probe.
pub open spec fn target_not_probed_reason() -> Seq<char> {
    "insufficient_data"@
}

fn initial_target(config: &crate::config::ReachabilityTargetConfig) -> (t: ReachabilityTargetSnapshot)
    ensures
        t.id@ == config.id@,
        t.state.reachability == ReachabilityStatus::Unknown,
        t.state.quality == TargetQualityState::Unknown,
        t.state.reason@ == target_not_probed_reason(),
        t.target.target_type == ProbeTargetType::Http,
        t.target.url@ == config.url@,
        t.current_probe is None,
        t.summary.sample_count == 0,
{
    ReachabilityTargetSnapshot {
        id: config.id.clone(),
        state: ReachabilityTargetState {
            reachability: ReachabilityStatus::Unknown,
            quality: TargetQualityState::Unknown,
            reason: "insufficient_data".to_string(),
        },
        target: ProbeTarget { target_type: ProbeTargetType::Http, url: config.url.clone() },
        current_probe: None,
        summary: QualitySummary::empty(),
    }
}

impl NetWatcherSnapshot {
    /// The snapshot before the first check: everything unknown, no interfaces, the configured
    /// reachability settings and targets, and no changes.
    pub fn initial_with_config(plugin_version: &str, config: &NetWatcherConfig, platform: &str) -> (r: Self)
        ensures
            snapshot_id_shape(r.meta.snapshot_id@),
            r.meta.platform@ == platform@,
            r.meta.plugin_version@ == plugin_version@,
            r.state.overall == OverallState::Unknown,
            r.state.network == NetworkLayerState::Unknown,
            r.state.internet == InternetStatus::Unknown,
            r.state.quality == QualityLayerState::Unknown,
            r.state.score == 0,
            r.state.reason@ == "insufficient_data"@,
            r.network.primary_interface_id is None,
            r.network.interfaces@.len() == 0,
            is_unchecked(r.network.internet),
            r.reachability.config == (ReachabilityConfigSnapshot {
                interval_ms: config.interval_ms,
                window_size: 20,
                timeout_ms: config.timeout_ms,
            }),
            r.reachability.targets@.len() == config.targets@.len(),
            forall|k: int|
                0 <= k < config.targets@.len() ==> {
                    let t = #[trigger] r.reachability.targets@[k];
                    &&& t.id@ == config.targets@[k].id@
                    &&& t.target.url@ == config.targets@[k].url@
                    &&& t.target.target_type == ProbeTargetType::Http
                    &&& t.state.reachability == ReachabilityStatus::Unknown
                    &&& t.state.quality == TargetQualityState::Unknown
                    &&& t.current_probe is None
                    &&& t.summary.sample_count == 0
                },
            !r.changes.has_changes,
            r.changes.previous_overall is None,
            r.changes.current_overall == OverallState::Unknown,
            r.changes.changed_fields@.len() == 0,
            r.changes.changed_target_ids@.len() == 0,
    {
        let mut targets: Vec<ReachabilityTargetSnapshot> = Vec::new();
        let mut k: usize = 0;
        while k < config.targets.len()
            invariant
                k <= config.targets.len(),
                targets@.len() == k,
                forall|j: int|
                    0 <= j < k ==> {
                        let t = #[trigger] targets@[j];
                        &&& t.id@ == config.targets@[j].id@
                        &&& t.target.url@ == config.targets@[j].url@
                        &&& t.target.target_type == ProbeTargetType::Http
                        &&& t.state.reachability == ReachabilityStatus::Unknown
                        &&& t.state.quality == TargetQualityState::Unknown
                        &&& t.current_probe is None
                        &&& t.summary.sample_count == 0
                    },
            decreases config.targets.len() - k,
        {
            targets.push(initial_target(&config.targets[k]));
            k = k + 1;
        }
        NetWatcherSnapshot {
            meta: SnapshotMeta {
                snapshot_id: snapshot_id(),
                timestamp: now_utc(),
                platform: platform.to_string(),
                plugin_version: plugin_version.to_string(),
            },
            state: SnapshotState {
                overall: OverallState::Unknown,
                network: NetworkLayerState::Unknown,
                internet: InternetStatus::Unknown,
                quality: QualityLayerState::Unknown,
                score: 0,
                reason: "insufficient_data".to_string(),
            },
            network: NetworkSnapshot {
                primary_interface_id: None,
                interfaces: Vec::new(),
                internet: InternetSnapshot::unchecked(),
            },
            reachability: ReachabilitySnapshot {
                config: ReachabilityConfigSnapshot {
                    interval_ms: config.interval_ms,
                    window_size: config.window_size(),
                    timeout_ms: config.timeout_ms,
                },
                targets,
            },
            changes: SnapshotChanges {
                has_changes: false,
                previous_overall: None,
                current_overall: OverallState::Unknown,
                changed_fields: Vec::new(),
                changed_target_ids: Vec::new(),
            },
        }
    }

    /// The initial snapshot of the default configuration.
    pub fn initial(plugin_version: &str, platform: &str) -> (r: Self)
        ensures
            snapshot_id_shape(r.meta.snapshot_id@),
            r.meta.platform@ == platform@,
            r.meta.plugin_version@ == plugin_version@,
            r.state.overall == OverallState::Unknown,
            r.state.network == NetworkLayerState::Unknown,
            r.state.internet == InternetStatus::Unknown,
            r.state.quality == QualityLayerState::Unknown,
            r.state.score == 0,
            r.state.reason@ == "insufficient_data"@,
            r.network.primary_interface_id is None,
            r.network.interfaces@.len() == 0,
            is_unchecked(r.network.internet),
            !r.changes.has_changes,
            r.changes.changed_fields@.len() == 0,
            r.changes.changed_target_ids@.len() == 0,
            r.reachability.targets@.len() == 0,
            r.reachability.config == (ReachabilityConfigSnapshot { interval_ms: 10_000, window_size: 20, timeout_ms: 3_000 }),
    {
        let config = NetWatcherConfig::default();
        Self::initial_with_config(plugin_version, &config, platform)
    }
}

/// No two targets share an id.
pub open spec fn distinct_target_ids(s: Seq<ReachabilityTargetSnapshot>) -> bool {
    forall|i: int, j: int| 0 <= i < s.len() && 0 <= j < s.len() && i != j ==> (#[trigger] s[i]).id@ != (#[trigger] s[j]).id@
}

proof fn lemma_first_with_own_id(s: Seq<ReachabilityTargetSnapshot>, k: int)
    requires
        distinct_target_ids(s),
        0 <= k < s.len(),
    ensures
        first_with_id(s, s[k].id@) == Some(s[k]),
    decreases k,
{
    if k > 0 {
        assert(s[0].id@ != s[k].id@);
        let t = s.drop_first();
        assert(t[k - 1] == s[k]);
        assert forall|i: int, j: int| 0 <= i < t.len() && 0 <= j < t.len() && i != j implies (#[trigger] t[i]).id@
            != (#[trigger] t[j]).id@ by {
            assert(t[i] == s[i + 1] && t[j] == s[j + 1]);
        }
        lemma_first_with_own_id(t, k - 1);
    }
}

/// Comparing targets with distinct ids with themselves reports none of them.
pub proof fn lemma_unchanged_targets_report_nothing(s: Seq<ReachabilityTargetSnapshot>)
    requires
        distinct_target_ids(s),
    ensures
        changed_target_ids_spec(s, s).len() == 0,
{
    broadcast use vstd::seq_lib::group_filter_ensures;

    let reported = |t: ReachabilityTargetSnapshot| target_reported(s, t);
    let gone = |t: ReachabilityTargetSnapshot| !has_id(s, t.id@);
    let a = s.filter(reported);
    let b = s.filter(gone);
    if a.len() > 0 {
        assert(reported(a[0]));
        assert(s.contains(a[0])) by {
            assert(a.contains(a[0]));
            s.lemma_filter_contains_rev(reported, a[0]);
        }
        let k = choose|k: int| 0 <= k < s.len() && s[k] == a[0];
        lemma_first_with_own_id(s, k);
    }
    if b.len() > 0 {
        assert(gone(b[0]));
        assert(s.contains(b[0])) by {
            assert(b.contains(b[0]));
            s.lemma_filter_contains_rev(gone, b[0]);
        }
        let k = choose|k: int| 0 <= k < s.len() && s[k] == b[0];
        assert(has_id(s, b[0].id@));
    }
}

/// A snapshot compared with itself shows no change, where its targets have distinct ids (as a
/// valid configuration makes them).
pub proof fn lemma_snapshot_has_no_change_from_itself(s: NetWatcherSnapshot)
    requires
        distinct_target_ids(s.reachability.targets@),
    ensures
        changed_fields_spec(s, s).len() == 0,
{
    lemma_unchanged_targets_report_nothing(s.reachability.targets@);
}

/// `q` is the probe `p` run again: the same outcome, with another id, other times and other
/// phase timings.
pub open spec fn same_probe_but_identity_and_times(p: Option<ProbeResult>, q: Option<ProbeResult>) -> bool {
    match (p, q) {
        (None, None) => true,
        (Some(a), Some(b)) => b == (ProbeResult {
            id: b.id,
            started_at: b.started_at,
            ended_at: b.ended_at,
            duration_ms: b.duration_ms,
            phases: b.phases,
            ..a
        }),
        _ => false,
    }
}

/// `b` is target `a` again, but for its current probe's identity and times and for when its
/// last success and failure were.
pub open spec fn same_target_but_identity_and_times(a: ReachabilityTargetSnapshot, b: ReachabilityTargetSnapshot) -> bool {
    &&& b.id == a.id
    &&& b.state == a.state
    &&& b.target == a.target
    &&& same_probe_but_identity_and_times(a.current_probe, b.current_probe)
    &&& b.summary == (QualitySummary {
        last_success_at: b.summary.last_success_at,
        last_failure_at: b.summary.last_failure_at,
        ..a.summary
    })
}

/// `next` is `previous` again but for its meta (snapshot id, time, platform, version), the
/// identity and times of its targets' probes and of their last success and failure, when the
/// internet was checked and how long its probe took.
pub open spec fn same_but_identity_and_times(previous: NetWatcherSnapshot, next: NetWatcherSnapshot) -> bool {
    let (a, b) = (previous.network.internet, next.network.internet);
    &&& next.state == previous.state
    &&& opt_str(next.network.primary_interface_id) == opt_str(previous.network.primary_interface_id)
    &&& interfaces_view(next.network.interfaces@) == interfaces_view(previous.network.interfaces@)
    &&& b == (InternetSnapshot { checked_at: b.checked_at, active_probe: b.active_probe, ..a })
    &&& match (a.active_probe, b.active_probe) {
        (None, None) => true,
        (Some(x), Some(y)) => y == (InternetProbeResult { duration_ms: y.duration_ms, ..x }),
        _ => false,
    }
    &&& next.reachability.config == previous.reachability.config
    &&& next.reachability.targets@.len() == previous.reachability.targets@.len()
    &&& forall|k: int|
        0 <= k < previous.reachability.targets@.len() ==> same_target_but_identity_and_times(
            #[trigger] previous.reachability.targets@[k],
            next.reachability.targets@[k],
        )
}

proof fn lemma_matching_targets_report_nothing(
    previous: Seq<ReachabilityTargetSnapshot>,
    next: Seq<ReachabilityTargetSnapshot>,
)
    requires
        distinct_target_ids(previous),
        next.len() == previous.len(),
        forall|k: int|
            0 <= k < previous.len() ==> (#[trigger] next[k]).id@ == previous[k].id@ && target_view(next[k])
                == target_view(previous[k]),
    ensures
        changed_target_ids_spec(previous, next).len() == 0,
{
    broadcast use vstd::seq_lib::group_filter_ensures;

    let reported = |t: ReachabilityTargetSnapshot| target_reported(previous, t);
    let gone = |t: ReachabilityTargetSnapshot| !has_id(next, t.id@);
    let a = next.filter(reported);
    let b = previous.filter(gone);
    if a.len() > 0 {
        assert(reported(a[0]));
        assert(next.contains(a[0])) by {
            assert(a.contains(a[0]));
            next.lemma_filter_contains_rev(reported, a[0]);
        }
        let k = choose|k: int| 0 <= k < next.len() && next[k] == a[0];
        lemma_first_with_own_id(previous, k);
    }
    if b.len() > 0 {
        assert(gone(b[0]));
        assert(previous.contains(b[0])) by {
            assert(b.contains(b[0]));
            previous.lemma_filter_contains_rev(gone, b[0]);
        }
        let k = choose|k: int| 0 <= k < previous.len() && previous[k] == b[0];
        assert(next[k].id@ == b[0].id@);
        assert(has_id(next, b[0].id@));
    }
}

/// Change detection ignores identities and times: a snapshot that differs from the previous one
/// only in its meta, its probes' ids and times, its targets' last success and failure times,
/// when the internet was checked and how long its probe took, shows no changed field (where the
/// targets have distinct ids, as a valid configuration makes them).
pub proof fn lemma_changes_ignore_identity_and_times(previous: NetWatcherSnapshot, next: NetWatcherSnapshot)
    requires
        distinct_target_ids(previous.reachability.targets@),
        same_but_identity_and_times(previous, next),
    ensures
        changed_fields_spec(previous, next).len() == 0,
{
    let p = previous.reachability.targets@;
    let n = next.reachability.targets@;
    assert forall|k: int| 0 <= k < p.len() implies (#[trigger] n[k]).id@ == p[k].id@ && target_view(n[k])
        == target_view(p[k]) by {
        assert(same_target_but_identity_and_times(p[k], n[k]));
    }
    lemma_matching_targets_report_nothing(p, n);
    assert(!internet_changed_spec(previous.network.internet, next.network.internet));
}

proof fn lemma_with_field_contains(s: Seq<Seq<char>>, changed: bool, name: Seq<char>, x: Seq<char>)
    ensures
        with_field(s, changed, name).contains(x) <==> (s.contains(x) || (changed && x == name)),
{
    if changed {
        let t = s.push(name);
        if s.contains(x) {
            let k = choose|k: int| 0 <= k < s.len() && s[k] == x;
            assert(t[k] == x);
        }
        if t.contains(x) && x != name {
            let k = choose|k: int| 0 <= k < t.len() && t[k] == x;
            assert(k < s.len());
            assert(s[k] == x);
        }
        assert(t[s.len() as int] == name);
    }
}

/// The names of the parts of a snapshot, in the order `changed_fields` lists them.
pub open spec fn field_names() -> Seq<Seq<char>> {
    seq![
        "network"@,
        "network.internet"@,
        "reachability.config.intervalMs"@,
        "reachability.config.windowSize"@,
        "reachability.config.timeoutMs"@,
        "reachability.targets"@,
        "state.overall"@,
        "state.network"@,
        "state.internet"@,
        "state.reason"@,
    ]
}

spec fn field_chain(names: Seq<Seq<char>>, changes: Seq<bool>, n: nat) -> Seq<Seq<char>>
    decreases n,
{
    if n == 0 {
        Seq::empty()
    } else {
        with_field(field_chain(names, changes, (n - 1) as nat), changes[n - 1], names[n - 1])
    }
}

proof fn lemma_field_chain_contains(names: Seq<Seq<char>>, changes: Seq<bool>, n: nat, x: Seq<char>)
    ensures
        field_chain(names, changes, n).contains(x) <==> exists|i: int| 0 <= i < n && changes[i] && #[trigger] names[i] == x,
    decreases n,
{
    if n > 0 {
        lemma_field_chain_contains(names, changes, (n - 1) as nat, x);
        lemma_with_field_contains(field_chain(names, changes, (n - 1) as nat), changes[n - 1], names[n - 1], x);
        if field_chain(names, changes, n).contains(x) {
            if !field_chain(names, changes, (n - 1) as nat).contains(x) {
                assert(changes[n - 1] && names[n - 1] == x);
            }
        }
        if exists|i: int| 0 <= i < n && changes[i] && #[trigger] names[i] == x {
            let i = choose|i: int| 0 <= i < n && changes[i] && #[trigger] names[i] == x;
            if i < n - 1 {
                assert(exists|i: int| 0 <= i < n - 1 && changes[i] && #[trigger] names[i] == x);
            }
        }
    }
}

proof fn lemma_field_names_distinct()
    ensures
        forall|i: int, j: int| 0 <= i < 10 && 0 <= j < 10 && i != j ==> field_names()[i] != field_names()[j],
{
    reveal_strlit("network");
    reveal_strlit("network.internet");
    reveal_strlit("reachability.config.intervalMs");
    reveal_strlit("reachability.config.windowSize");
    reveal_strlit("reachability.config.timeoutMs");
    reveal_strlit("reachability.targets");
    reveal_strlit("state.overall");
    reveal_strlit("state.network");
    reveal_strlit("state.internet");
    reveal_strlit("state.reason");
    let n = field_names();
    let lens: Seq<nat> = seq![7, 16, 30, 30, 29, 20, 13, 13, 14, 12];
    assert forall|k: int| 0 <= k < 10 implies #[trigger] n[k].len() == lens[k] by {
        if k == 0 {
            assert(n[0] == "network"@);
        } else if k == 1 {
            assert(n[1] == "network.internet"@);
        } else if k == 2 {
            assert(n[2] == "reachability.config.intervalMs"@);
        } else if k == 3 {
            assert(n[3] == "reachability.config.windowSize"@);
        } else if k == 4 {
            assert(n[4] == "reachability.config.timeoutMs"@);
        } else if k == 5 {
            assert(n[5] == "reachability.targets"@);
        } else if k == 6 {
            assert(n[6] == "state.overall"@);
        } else if k == 7 {
            assert(n[7] == "state.network"@);
        } else if k == 8 {
            assert(n[8] == "state.internet"@);
        } else {
            assert(n[9] == "state.reason"@);
        }
    }
    assert(n[2][20] != n[3][20]);
    assert(n[6][6] != n[7][6]);
    assert forall|i: int, j: int| 0 <= i < 10 && 0 <= j < 10 && i != j implies n[i] != n[j] by {
        assert(n[i].len() == lens[i] && n[j].len() == lens[j]);
        if n[i] == n[j] {
            assert((i == 2 && j == 3) || (i == 3 && j == 2) || (i == 6 && j == 7) || (i == 7 && j == 6));
            if i == 2 || i == 3 {
                assert(n[i][20] == n[j][20]);
            } else {
                assert(n[i][6] == n[j][6]);
            }
        }
    }
}

/// Whether each part of the snapshot differs between `previous` and `next`, in the order of
/// `field_names`.
pub open spec fn field_differences(previous: NetWatcherSnapshot, next: NetWatcherSnapshot) -> Seq<bool> {
    seq![
        opt_str(previous.network.primary_interface_id) != opt_str(next.network.primary_interface_id)
            || interfaces_view(previous.network.interfaces@) != interfaces_view(next.network.interfaces@),
        internet_changed_spec(previous.network.internet, next.network.internet),
        previous.reachability.config.interval_ms != next.reachability.config.interval_ms,
        previous.reachability.config.window_size != next.reachability.config.window_size,
        previous.reachability.config.timeout_ms != next.reachability.config.timeout_ms,
        changed_target_ids_spec(previous.reachability.targets@, next.reachability.targets@).len() > 0,
        previous.state.overall != next.state.overall,
        previous.state.network != next.state.network,
        previous.state.internet != next.state.internet,
        previous.state.reason@ != next.state.reason@,
    ]
}

/// Which parts of the snapshot are reported as changed: `network` exactly when the primary
/// interface or any interface (its id, names, type, status, addresses, gateway or DNS servers)
/// differs; `network.internet` exactly when the internet layer says something else; each
/// reachability setting exactly when it differs; `reachability.targets` exactly when some target
/// is new, gone or says something else; and each part of the state's verdict exactly when it
/// differs.
pub proof fn lemma_changed_fields_report_differences(previous: NetWatcherSnapshot, next: NetWatcherSnapshot)
    ensures
        ({
            let f = changed_fields_spec(previous, next);
            &&& f.contains("network"@) <==> (opt_str(previous.network.primary_interface_id) != opt_str(
                next.network.primary_interface_id,
            ) || interfaces_view(previous.network.interfaces@) != interfaces_view(next.network.interfaces@))
            &&& f.contains("network.internet"@) <==> internet_changed_spec(previous.network.internet, next.network.internet)
            &&& f.contains("reachability.config.intervalMs"@) <==> previous.reachability.config.interval_ms
                != next.reachability.config.interval_ms
            &&& f.contains("reachability.config.windowSize"@) <==> previous.reachability.config.window_size
                != next.reachability.config.window_size
            &&& f.contains("reachability.config.timeoutMs"@) <==> previous.reachability.config.timeout_ms
                != next.reachability.config.timeout_ms
            &&& f.contains("reachability.targets"@) <==> changed_target_ids_spec(
                previous.reachability.targets@,
                next.reachability.targets@,
            ).len() > 0
            &&& f.contains("state.overall"@) <==> previous.state.overall != next.state.overall
            &&& f.contains("state.network"@) <==> previous.state.network != next.state.network
            &&& f.contains("state.internet"@) <==> previous.state.internet != next.state.internet
            &&& f.contains("state.reason"@) <==> previous.state.reason@ != next.state.reason@
        }),
{
    let names = field_names();
    let changes = field_differences(previous, next);
    assert(changed_fields_spec(previous, next) == field_chain(names, changes, 10)) by {
        reveal_with_fuel(field_chain, 11);
    }
    lemma_field_names_distinct();
    assert forall|k: int| 0 <= k < 10 implies #[trigger] field_chain(names, changes, 10).contains(names[k]) == changes[k] by {
        lemma_field_chain_contains(names, changes, 10, names[k]);
        if field_chain(names, changes, 10).contains(names[k]) {
            let i = choose|i: int| 0 <= i < 10 && changes[i] && #[trigger] names[i] == names[k];
            assert(i == k);
        }
    }
    assert(field_chain(names, changes, 10).contains(names[0]) == changes[0]);
    assert(field_chain(names, changes, 10).contains(names[1]) == changes[1]);
    assert(field_chain(names, changes, 10).contains(names[2]) == changes[2]);
    assert(field_chain(names, changes, 10).contains(names[3]) == changes[3]);
    assert(field_chain(names, changes, 10).contains(names[4]) == changes[4]);
    assert(field_chain(names, changes, 10).contains(names[5]) == changes[5]);
    assert(field_chain(names, changes, 10).contains(names[6]) == changes[6]);
    assert(field_chain(names, changes, 10).contains(names[7]) == changes[7]);
    assert(field_chain(names, changes, 10).contains(names[8]) == changes[8]);
    assert(field_chain(names, changes, 10).contains(names[9]) == changes[9]);
}

} // verus!
