//! Application settings (`config.toml`): global defaults, web and database
//! settings, and the legacy in-file monitor list with its seconds-based timing.

use std::collections::HashMap;
use vstd::prelude::*;

verus! {

/// The `[defaults]` table.
///
/// `timeout_ms` / `interval_ms` override the built-in per-monitor timing of
/// database monitors; `timeout_secs` / `interval_secs` do the same for the
/// legacy seconds-based monitors of `config.toml`. `retention_days` bounds the
/// stored history (90 days when unset).
#[derive(Debug, Clone)]
pub struct Defaults {
    pub timeout_secs: Option<u64>,
    pub interval_secs: Option<u64>,
    pub retention_days: Option<u64>,
    pub timeout_ms: Option<u64>,
    pub interval_ms: Option<u64>,
}

impl Default for Defaults {
    fn default() -> (d: Self)
        ensures
            d.timeout_secs is None,
            d.interval_secs is None,
            d.retention_days is None,
            d.timeout_ms is None,
            d.interval_ms is None,
    {
        Defaults {
            timeout_secs: None,
            interval_secs: None,
            retention_days: None,
            timeout_ms: None,
            interval_ms: None,
        }
    }
}

impl Defaults {
    /// The global retention in days: the configured value, else 90.
    pub fn effective_retention_days(&self) -> (d: u64)
        ensures
            d == match self.retention_days {
                Some(v) => v,
                None => 90,
            },
    {
        match self.retention_days {
            Some(v) => v,
            None => 90,
        }
    }
}

/// The `[web]` table.
#[derive(Debug, Clone)]
pub struct WebConfig {
    pub bind: String,
}

impl Default for WebConfig {
    fn default() -> (w: Self)
        ensures
            w.bind@ == "0.0.0.0:3000"@,
    {
        WebConfig { bind: "0.0.0.0:3000".to_owned() }
    }
}

/// The `[database]` table.
#[derive(Debug, Clone)]
pub struct DatabaseConfig {
    pub path: String,
}

impl Default for DatabaseConfig {
    fn default() -> (d: Self)
        ensures
            d.path@ == "./data/rusty-pingus.db"@,
    {
        DatabaseConfig { path: "./data/rusty-pingus.db".to_owned() }
    }
}

/// The whole of `config.toml`.
#[derive(Debug)]
pub struct Config {
    pub defaults: Defaults,
    pub web: WebConfig,
    pub database: DatabaseConfig,
    pub monitors: Vec<MonitorConfig>,
}

/// A legacy monitor entry of `config.toml` (timing in seconds).
#[derive(Debug, Clone)]
pub enum MonitorConfig {
    Http(HttpMonitorConfig),
    Tcp(TcpMonitorConfig),
    Icmp(IcmpMonitorConfig),
}

#[derive(Debug, Clone)]
pub struct HttpMonitorConfig {
    pub name: String,
    pub url: String,
    pub interval_secs: u64,
    pub timeout_secs: u64,
    pub method: String,
    pub expected_status: Option<u16>,
    pub headers: HashMap<String, String>,
    pub body: Option<String>,
}

#[derive(Debug, Clone)]
pub struct TcpMonitorConfig {
    pub name: String,
    pub host: String,
    pub port: u16,
    pub interval_secs: u64,
    pub timeout_secs: u64,
}

#[derive(Debug, Clone)]
pub struct IcmpMonitorConfig {
    pub name: String,
    pub host: String,
    pub interval_secs: u64,
    pub timeout_secs: u64,
}

impl MonitorConfig {
    pub open spec fn name_view(self) -> Seq<char> {
        match self {
            MonitorConfig::Http(c) => c.name@,
            MonitorConfig::Tcp(c) => c.name@,
            MonitorConfig::Icmp(c) => c.name@,
        }
    }

    pub open spec fn interval_of(self) -> u64 {
        match self {
            MonitorConfig::Http(c) => c.interval_secs,
            MonitorConfig::Tcp(c) => c.interval_secs,
            MonitorConfig::Icmp(c) => c.interval_secs,
        }
    }

    pub open spec fn timeout_of(self) -> u64 {
        match self {
            MonitorConfig::Http(c) => c.timeout_secs,
            MonitorConfig::Tcp(c) => c.timeout_secs,
            MonitorConfig::Icmp(c) => c.timeout_secs,
        }
    }

    pub fn name(&self) -> (n: &str)
        ensures
            n@ == self.name_view(),
    {
        match self {
            MonitorConfig::Http(c) => c.name.as_str(),
            MonitorConfig::Tcp(c) => c.name.as_str(),
            MonitorConfig::Icmp(c) => c.name.as_str(),
        }
    }

    pub fn interval_secs(&self) -> (i: u64)
        ensures
            i == self.interval_of(),
    {
        match self {
            MonitorConfig::Http(c) => c.interval_secs,
            MonitorConfig::Tcp(c) => c.interval_secs,
            MonitorConfig::Icmp(c) => c.interval_secs,
        }
    }
}

pub fn default_interval() -> (s: u64)
    ensures
        s == 60,
{
    60
}

pub fn default_timeout() -> (s: u64)
    ensures
        s == 10,
{
    10
}

pub fn default_http_method() -> (m: String)
    ensures
        m@ == "GET"@,
{
    "GET".to_owned()
}

/// The timing a configured default gives a value that is still at its
/// built-in default: the configured value when there is one, else unchanged.
pub open spec fn defaulted(value: u64, builtin: u64, configured: Option<u64>) -> u64 {
    match configured {
        Some(v) if value == builtin => v,
        _ => value,
    }
}

/// A legacy monitor after the seconds-based `[defaults]` are applied.
pub open spec fn with_defaults(m: MonitorConfig, d: Defaults) -> MonitorConfig {
    match m {
        MonitorConfig::Http(c) => MonitorConfig::Http(
            HttpMonitorConfig {
                timeout_secs: defaulted(c.timeout_secs, 10, d.timeout_secs),
                interval_secs: defaulted(c.interval_secs, 60, d.interval_secs),
                ..c
            },
        ),
        MonitorConfig::Tcp(c) => MonitorConfig::Tcp(
            TcpMonitorConfig {
                timeout_secs: defaulted(c.timeout_secs, 10, d.timeout_secs),
                interval_secs: defaulted(c.interval_secs, 60, d.interval_secs),
                ..c
            },
        ),
        MonitorConfig::Icmp(c) => MonitorConfig::Icmp(
            IcmpMonitorConfig {
                timeout_secs: defaulted(c.timeout_secs, 10, d.timeout_secs),
                interval_secs: defaulted(c.interval_secs, 60, d.interval_secs),
                ..c
            },
        ),
    }
}

/// Whatever its kind, a legacy monitor keeps its kind and name under
/// `[defaults]`; a timeout still at 10 s takes the configured default timeout
/// and an interval still at 60 s the configured default interval, when those
/// are set; any other value stays.
pub proof fn lemma_defaults_fields(m: MonitorConfig, d: Defaults)
    ensures
        with_defaults(m, d).name_view() == m.name_view(),
        (with_defaults(m, d) is Http) == (m is Http),
        (with_defaults(m, d) is Tcp) == (m is Tcp),
        (with_defaults(m, d) is Icmp) == (m is Icmp),
        with_defaults(m, d).timeout_of() == (if m.timeout_of() == 10 && d.timeout_secs is Some {
            d.timeout_secs->0
        } else {
            m.timeout_of()
        }),
        with_defaults(m, d).interval_of() == (if m.interval_of() == 60 && d.interval_secs is Some {
            d.interval_secs->0
        } else {
            m.interval_of()
        }),
{
}

fn defaulted_value(value: u64, builtin: u64, configured: Option<u64>) -> (v: u64)
    ensures
        v == defaulted(value, builtin, configured),
{
    match configured {
        Some(t) => if value == builtin {
            t
        } else {
            value
        },
        None => value,
    }
}

fn apply_to_monitor(m: &mut MonitorConfig, d: &Defaults)
    ensures
        *final(m) == with_defaults(*old(m), *d),
{
    match m {
        MonitorConfig::Http(c) => {
            c.timeout_secs = defaulted_value(c.timeout_secs, 10, d.timeout_secs);
            c.interval_secs = defaulted_value(c.interval_secs, 60, d.interval_secs);
        },
        MonitorConfig::Tcp(c) => {
            c.timeout_secs = defaulted_value(c.timeout_secs, 10, d.timeout_secs);
            c.interval_secs = defaulted_value(c.interval_secs, 60, d.interval_secs);
        },
        MonitorConfig::Icmp(c) => {
            c.timeout_secs = defaulted_value(c.timeout_secs, 10, d.timeout_secs);
            c.interval_secs = defaulted_value(c.interval_secs, 60, d.interval_secs);
        },
    }
}

/// Applies `[defaults]` to every legacy monitor: a timeout still at the
/// built-in 10 s, or an interval still at the built-in 60 s, takes the
/// configured default.
pub fn apply_defaults(config: &mut Config)
    ensures
        final(config).defaults == old(config).defaults,
        final(config).web == old(config).web,
        final(config).database == old(config).database,
        final(config).monitors@.len() == old(config).monitors@.len(),
        forall|i: int|
            0 <= i < old(config).monitors@.len() ==> #[trigger] final(config).monitors@[i]
                == with_defaults(old(config).monitors@[i], old(config).defaults),
        forall|i: int|
            #![trigger final(config).monitors@[i]]
            0 <= i < old(config).monitors@.len() ==> final(config).monitors@[i].timeout_of() == (
            if old(config).monitors@[i].timeout_of() == 10 && old(config).defaults.timeout_secs
                is Some {
                old(config).defaults.timeout_secs->0
            } else {
                old(config).monitors@[i].timeout_of()
            }),
        forall|i: int|
            #![trigger final(config).monitors@[i]]
            0 <= i < old(config).monitors@.len() ==> final(config).monitors@[i].interval_of() == (
            if old(config).monitors@[i].interval_of() == 60 && old(config).defaults.interval_secs
                is Some {
                old(config).defaults.interval_secs->0
            } else {
                old(config).monitors@[i].interval_of()
            }),
{
    let n = config.monitors.len();
    let mut i: usize = 0;
    while i < n
        invariant
            n == config.monitors@.len(),
            n == old(config).monitors@.len(),
            i <= n,
            config.defaults == old(config).defaults,
            config.web == old(config).web,
            config.database == old(config).database,
            forall|k: int|
                0 <= k < i ==> #[trigger] config.monitors@[k] == with_defaults(
                    old(config).monitors@[k],
                    old(config).defaults,
                ),
            forall|k: int| i <= k < n ==> #[trigger] config.monitors@[k] == old(config).monitors@[k],
        decreases n - i,
    {
        apply_to_monitor(&mut config.monitors[i], &config.defaults);
        i = i + 1;
    }
    proof {
        assert forall|i: int| 0 <= i < old(config).monitors@.len() implies {
            &&& config.monitors@[i].timeout_of() == (if old(config).monitors@[i].timeout_of() == 10
                && old(config).defaults.timeout_secs is Some {
                old(config).defaults.timeout_secs->0
            } else {
                old(config).monitors@[i].timeout_of()
            })
            &&& config.monitors@[i].interval_of() == (if old(config).monitors@[i].interval_of()
                == 60 && old(config).defaults.interval_secs is Some {
                old(config).defaults.interval_secs->0
            } else {
                old(config).monitors@[i].interval_of()
            })
        } by {
            lemma_defaults_fields(old(config).monitors@[i], old(config).defaults);
        }
    }
}

} // verus!
