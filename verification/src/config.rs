use vstd::prelude::*;

use crate::error::{Error, ErrorCode};
use crate::outside::{UrlHostView, UrlPartsView, parse_url, url_parse};
use crate::text::{chars_of, is_blank, string_of, trim};

verus! {

pub const MIN_INTERVAL_MS: u64 = 1_000;
pub const MAX_INTERVAL_MS: u64 = 3_600_000;
pub const MIN_TIMEOUT_MS: u64 = 100;
pub const MAX_TIMEOUT_MS: u64 = 60_000;

/// One reachability target: an id and the URL that is probed.
#[derive(Debug)]
pub struct ReachabilityTargetConfig {
    pub id: String,
    pub url: String,
}

impl Clone for ReachabilityTargetConfig {
    fn clone(&self) -> (r: Self)
        ensures
            r == *self,
    {
        ReachabilityTargetConfig { id: self.id.clone(), url: self.url.clone() }
    }
}

/// The plugin's configuration.
#[derive(Debug)]
pub struct NetWatcherConfig {
    pub auto_start: bool,
    pub targets: Vec<ReachabilityTargetConfig>,
    pub interval_ms: u64,
    pub timeout_ms: u64,
}

/// Values that a call to start watching may override.
#[derive(Debug)]
pub struct StartWatchingOptions {
    pub targets: Option<Vec<ReachabilityTargetConfig>>,
    pub interval_ms: Option<u64>,
    pub timeout_ms: Option<u64>,
}

impl Default for StartWatchingOptions {
    fn default() -> (r: Self)
        ensures
            r.targets is None,
            r.interval_ms is None,
            r.timeout_ms is None,
    {
        StartWatchingOptions { targets: None, interval_ms: None, timeout_ms: None }
    }
}

pub fn default_interval_ms() -> (r: u64)
    ensures
        r == 10_000,
{
    10_000
}

pub fn default_timeout_ms() -> (r: u64)
    ensures
        r == 3_000,
{
    3_000
}

pub fn default_window_size() -> (r: usize)
    ensures
        r == 20,
{
    20
}

/// The failure rate from which the quality counts as degraded, in basis points (15 %).
pub fn default_degraded_failure_rate_bp() -> (r: u32)
    ensures
        r == 1_500,
{
    1_500
}

pub fn default_degraded_p95_latency_ms() -> (r: u64)
    ensures
        r == 800,
{
    800
}

impl Default for NetWatcherConfig {
    fn default() -> (r: Self)
        ensures
            !r.auto_start,
            r.targets@.len() == 0,
            r.interval_ms == 10_000,
            r.timeout_ms == 3_000,
    {
        NetWatcherConfig {
            auto_start: false,
            targets: Vec::new(),
            interval_ms: default_interval_ms(),
            timeout_ms: default_timeout_ms(),
        }
    }
}

/// The error text of target `i` of `ts`, given the targets before it; `None` when it is valid.
pub open spec fn target_error(ts: Seq<ReachabilityTargetConfig>, i: int) -> Option<Seq<char>> {
    let t = ts[i];
    if is_blank(t.id@) {
        Some("net watcher target id must not be empty"@)
    } else if exists|j: int| 0 <= j < i && #[trigger] ts[j].id@ == t.id@ {
        Some("net watcher target id is duplicated: "@ + t.id@)
    } else {
        url_error(t.url@)
    }
}

/// The error text for a target URL; `None` when it parses, uses http or https and has a host.
pub open spec fn url_error(url: Seq<char>) -> Option<Seq<char>> {
    match url_parse(url) {
        Err(e) => Some("net watcher target is invalid: "@ + e),
        Ok(parts) => if parts.scheme != "http"@ && parts.scheme != "https"@ {
            Some("net watcher target must use http or https"@)
        } else if parts.host is None {
            Some("net watcher target host is required"@)
        } else {
            None
        },
    }
}

/// The first error among the first `k` targets.
pub open spec fn targets_error(ts: Seq<ReachabilityTargetConfig>, k: int) -> Option<Seq<char>>
    decreases k,
{
    if k <= 0 {
        None
    } else {
        match targets_error(ts, k - 1) {
            Some(e) => Some(e),
            None => target_error(ts, k - 1),
        }
    }
}

/// The error text of a configuration; `None` when it is valid.
pub open spec fn config_error(c: NetWatcherConfig) -> Option<Seq<char>> {
    match targets_error(c.targets@, c.targets@.len() as int) {
        Some(e) => Some(e),
        None => if !(MIN_INTERVAL_MS <= c.interval_ms <= MAX_INTERVAL_MS) {
            Some("net watcher interval_ms must be between 1000 and 3600000"@)
        } else if !(MIN_TIMEOUT_MS <= c.timeout_ms <= MAX_TIMEOUT_MS) {
            Some("net watcher timeout_ms must be between 100 and 60000"@)
        } else if c.timeout_ms > c.interval_ms {
            Some("net watcher timeout_ms must not be greater than interval_ms"@)
        } else {
            None
        },
    }
}

proof fn lemma_targets_error_stable(ts: Seq<ReachabilityTargetConfig>, i: int, k: int)
    requires
        0 <= i <= k,
        targets_error(ts, i) is Some,
    ensures
        targets_error(ts, k) == targets_error(ts, i),
    decreases k - i,
{
    if k > i {
        lemma_targets_error_stable(ts, i, k - 1);
    }
}

/// Checks that a target URL parses, uses http or https and names a host.
pub fn validate_target_url(value: &str) -> (r: Result<(), Error>)
    ensures
        r is Ok <==> url_error(value@) is None,
        r matches Err(e) ==> e.code == ErrorCode::InvalidConfig && url_error(value@) == Some(e.message@),
{
    match parse_url(value) {
        Err(e) => {
            let mut message = "net watcher target is invalid: ".to_owned();
            message.append(e.as_str());
            Err(Error::invalid_config(message))
        },
        Ok(parts) => {
            if !parts.scheme.eq(&"http".to_owned()) && !parts.scheme.eq(&"https".to_owned()) {
                Err(Error::invalid_config("net watcher target must use http or https".to_owned()))
            } else if parts.host.is_none() {
                Err(Error::invalid_config("net watcher target host is required".to_owned()))
            } else {
                Ok(())
            }
        },
    }
}

fn id_is_blank(id: &String) -> (b: bool)
    ensures
        b == is_blank(id@),
{
    let chars = chars_of(id.as_str());
    let trimmed = trim(&chars);
    trimmed.len() == 0
}

impl NetWatcherConfig {
    /// The configuration with every value that `options` sets taken from it.
    pub fn with_runtime_options(self, options: StartWatchingOptions) -> (r: Self)
        ensures
            r.auto_start == self.auto_start,
            r.targets == (match options.targets {
                Some(t) => t,
                None => self.targets,
            }),
            r.interval_ms == (match options.interval_ms {
                Some(v) => v,
                None => self.interval_ms,
            }),
            r.timeout_ms == (match options.timeout_ms {
                Some(v) => v,
                None => self.timeout_ms,
            }),
    {
        let mut config = self;
        if let Some(targets) = options.targets {
            config.targets = targets;
        }
        if let Some(interval_ms) = options.interval_ms {
            config.interval_ms = interval_ms;
        }
        if let Some(timeout_ms) = options.timeout_ms {
            config.timeout_ms = timeout_ms;
        }
        config
    }

    /// Checks target ids (not blank, not repeated) and URLs, then the interval and timeout bounds.
    pub fn validate(&self) -> (r: Result<(), Error>)
        ensures
            r is Ok <==> config_error(*self) is None,
            r matches Err(e) ==> e.code == ErrorCode::InvalidConfig && config_error(*self) == Some(e.message@),
    {
        let n = self.targets.len();
        let mut i: usize = 0;
        while i < n
            invariant
                n == self.targets@.len(),
                i <= n,
                targets_error(self.targets@, i as int) is None,
            decreases n - i,
        {
            let target = &self.targets[i];
            if id_is_blank(&target.id) {
                proof {
                    assert(targets_error(self.targets@, i + 1) == target_error(self.targets@, i as int));
                    lemma_targets_error_stable(self.targets@, i + 1, n as int);
                }
                return Err(Error::invalid_config("net watcher target id must not be empty".to_owned()));
            }
            let mut j: usize = 0;
            while j < i
                invariant
                    i < n,
                    n == self.targets@.len(),
                    j <= i,
                    targets_error(self.targets@, i as int) is None,
                    !is_blank(self.targets@[i as int].id@),
                    forall|k: int| 0 <= k < j ==> self.targets@[k].id@ != self.targets@[i as int].id@,
                decreases i - j,
            {
                if self.targets[j].id.eq(&self.targets[i].id) {
                    let mut message = "net watcher target id is duplicated: ".to_owned();
                    message.append(self.targets[i].id.as_str());
                    proof {
                        assert(self.targets@[j as int].id@ == self.targets@[i as int].id@);
                        assert(targets_error(self.targets@, i + 1) == target_error(self.targets@, i as int));
                        lemma_targets_error_stable(self.targets@, i + 1, n as int);
                    }
                    return Err(Error::invalid_config(message));
                }
                j = j + 1;
            }
            let checked = validate_target_url(self.targets[i].url.as_str());
            proof {
                assert(!(exists|j: int| 0 <= j < i && #[trigger] self.targets@[j].id@ == self.targets@[i as int].id@));
                assert(target_error(self.targets@, i as int) == url_error(self.targets@[i as int].url@));
                assert(targets_error(self.targets@, i + 1) == target_error(self.targets@, i as int));
            }
            if let Err(e) = checked {
                proof {
                    lemma_targets_error_stable(self.targets@, i + 1, n as int);
                }
                return Err(e);
            }
            i = i + 1;
        }
        if !(MIN_INTERVAL_MS <= self.interval_ms && self.interval_ms <= MAX_INTERVAL_MS) {
            return Err(Error::invalid_config("net watcher interval_ms must be between 1000 and 3600000".to_owned()));
        }
        if !(MIN_TIMEOUT_MS <= self.timeout_ms && self.timeout_ms <= MAX_TIMEOUT_MS) {
            return Err(Error::invalid_config("net watcher timeout_ms must be between 100 and 60000".to_owned()));
        }
        if self.timeout_ms > self.interval_ms {
            return Err(Error::invalid_config("net watcher timeout_ms must not be greater than interval_ms".to_owned()));
        }
        Ok(())
    }

    pub fn window_size(&self) -> (r: usize)
        ensures
            r == 20,
    {
        default_window_size()
    }

    pub fn degraded_failure_rate_bp(&self) -> (r: u32)
        ensures
            r == 1_500,
    {
        default_degraded_failure_rate_bp()
    }

    pub fn degraded_p95_latency_ms(&self) -> (r: u64)
        ensures
            r == 800,
    {
        default_degraded_p95_latency_ms()
    }

    pub fn include_mac_address(&self) -> (r: bool)
        ensures
            !r,
    {
        false
    }
}

} // verus!
