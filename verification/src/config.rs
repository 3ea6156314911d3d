//! Server settings: their defaults and the environment variables that
//! override them.
use vstd::prelude::*;
use crate::decimal::{parse_int, parse_u64};
use crate::store::str_seq_view;
use crate::text::{split_chars, split_on, string_from_chars};

verus! {

#[derive(Clone, Debug)]
pub struct ServerConfig {
    pub grpc_addr: String,
    pub http_addr: String,
}

#[derive(Clone, Debug)]
pub struct StorageConfig {
    pub redis_url: String,
    pub namespace: String,
}

#[derive(Clone, Debug)]
pub struct ObservabilityConfig {
    pub log_level: String,
    pub log_format: String,
}

#[derive(Clone, Debug)]
pub struct AppConfig {
    pub default_lease_duration_ms: u64,
    pub max_payload_bytes: usize,
    pub lease_sweep_interval_ms: u64,
    pub recent_history_limit: usize,
    pub heartbeat_interval_ms: u64,
    pub offline_threshold_ms: u64,
    pub max_lease_renewals: u32,
    pub cors_origins: Vec<String>,
    pub server: ServerConfig,
    pub storage: StorageConfig,
    pub observability: ObservabilityConfig,
}

pub fn default_lease_duration_ms() -> (r: u64)
    ensures
        r == 30_000,
{
    30_000
}

pub fn default_max_payload() -> (r: usize)
    ensures
        r == 262_144,
{
    262_144
}

pub fn default_sweep_interval() -> (r: u64)
    ensures
        r == 1_000,
{
    1_000
}

pub fn default_history_limit() -> (r: usize)
    ensures
        r == 10_000,
{
    10_000
}

pub fn default_heartbeat_interval() -> (r: u64)
    ensures
        r == 10_000,
{
    10_000
}

pub fn default_offline_threshold() -> (r: u64)
    ensures
        r == 30_000,
{
    30_000
}

pub fn default_max_renewals() -> (r: u32)
    ensures
        r == 100,
{
    100
}

pub fn default_cors_origins() -> (r: Vec<String>)
    ensures
        str_seq_view(r@) == seq!["http://localhost:3000"@, "http://localhost:3001"@],
{
    let mut v: Vec<String> = Vec::new();
    v.push(String::from_str("http://localhost:3000"));
    v.push(String::from_str("http://localhost:3001"));
    assert(str_seq_view(v@) =~= seq!["http://localhost:3000"@, "http://localhost:3001"@]);
    v
}

pub fn default_log_level() -> (r: String)
    ensures
        r@ == "info"@,
{
    String::from_str("info")
}

pub fn default_log_format() -> (r: String)
    ensures
        r@ == "json"@,
{
    String::from_str("json")
}

impl Default for ObservabilityConfig {
    /// Level `info`, format `json`.
    fn default() -> (r: Self)
        ensures
            r.log_level@ == "info"@,
            r.log_format@ == "json"@,
    {
        ObservabilityConfig { log_level: default_log_level(), log_format: default_log_format() }
    }
}

/// Settings values read from the environment, each `None` where the variable
/// is unset.
#[derive(Clone, Debug)]
pub struct EnvOverrides {
    /// `FEATHER_GRPC_ADDR`
    pub grpc_addr: Option<String>,
    /// `FEATHER_HTTP_ADDR`
    pub http_addr: Option<String>,
    /// `FEATHER_REDIS_URL`
    pub redis_url: Option<String>,
    /// `FEATHER_NAMESPACE`
    pub namespace: Option<String>,
    /// `FEATHER_LEASE_MS`
    pub lease_ms: Option<String>,
    /// `FEATHER_LOG`
    pub log_level: Option<String>,
    /// `FEATHER_CORS_ORIGINS`
    pub cors_origins: Option<String>,
}

#[derive(Debug, PartialEq, Eq, Structural)]
pub enum ConfigError {
    /// `FEATHER_LEASE_MS` is not a `u64`.
    InvalidLeaseMs,
}

/// `char::is_whitespace`: the Unicode White_Space characters.
pub open spec fn is_whitespace(c: char) -> bool {
    ('\u{9}' <= c && c <= '\u{d}') || c == ' ' || c == '\u{85}' || c == '\u{a0}' || c
        == '\u{1680}' || ('\u{2000}' <= c && c <= '\u{200a}') || c == '\u{2028}' || c == '\u{2029}'
        || c == '\u{202f}' || c == '\u{205f}' || c == '\u{3000}'
}

pub open spec fn trim_start(s: Seq<char>) -> Seq<char>
    decreases s.len(),
{
    if s.len() > 0 && is_whitespace(s[0]) {
        trim_start(s.drop_first())
    } else {
        s
    }
}

pub open spec fn trim_end(s: Seq<char>) -> Seq<char>
    decreases s.len(),
{
    if s.len() > 0 && is_whitespace(s.last()) {
        trim_end(s.drop_last())
    } else {
        s
    }
}

/// `str::trim`: without leading and trailing whitespace.
pub open spec fn trim(s: Seq<char>) -> Seq<char> {
    trim_end(trim_start(s))
}

/// The non-empty pieces, in order.
pub open spec fn keep_nonempty(s: Seq<Seq<char>>) -> Seq<Seq<char>>
    decreases s.len(),
{
    if s.len() == 0 {
        s
    } else if s.last().len() > 0 {
        keep_nonempty(s.drop_last()).push(s.last())
    } else {
        keep_nonempty(s.drop_last())
    }
}

/// The origins of a comma-separated list: each piece trimmed, empty ones
/// left out.
pub open spec fn origin_list(v: Seq<char>) -> Seq<Seq<char>> {
    keep_nonempty(split_on(v, ',').map_values(|p: Seq<char>| trim(p)))
}

fn is_ws(c: char) -> (r: bool)
    ensures
        r == is_whitespace(c),
{
    ('\u{9}' <= c && c <= '\u{d}') || c == ' ' || c == '\u{85}' || c == '\u{a0}' || c
        == '\u{1680}' || ('\u{2000}' <= c && c <= '\u{200a}') || c == '\u{2028}' || c == '\u{2029}'
        || c == '\u{202f}' || c == '\u{205f}' || c == '\u{3000}'
}

/// `str::trim` on characters.
pub fn trim_chars(v: &Vec<char>) -> (r: Vec<char>)
    ensures
        r@ == trim(v@),
{
    let n = v.len();
    let mut start: usize = 0;
    assert(v@.skip(0) =~= v@);
    while start < n && is_ws(v[start])
        invariant
            n == v@.len(),
            start <= n,
            trim_start(v@) == trim_start(v@.skip(start as int)),
        decreases n - start,
    {
        assert(v@.skip(start as int).drop_first() =~= v@.skip(start + 1));
        start = start + 1;
    }
    let ghost t = v@.skip(start as int);
    assert(trim_start(t) == t);
    let mut end: usize = n;
    assert(v@.subrange(start as int, n as int) =~= t);
    while end > start && is_ws(v[end - 1])
        invariant
            n == v@.len(),
            start <= end <= n,
            t == v@.skip(start as int),
            trim_end(t) == trim_end(v@.subrange(start as int, end as int)),
        decreases end - start,
    {
        assert(v@.subrange(start as int, end as int).drop_last() =~= v@.subrange(
            start as int,
            end - 1,
        ));
        end = end - 1;
    }
    assert(t =~= v@.subrange(start as int, n as int));
    let mut r: Vec<char> = Vec::new();
    let mut i: usize = start;
    while i < end
        invariant
            start <= i <= end <= n,
            n == v@.len(),
            r@ == v@.subrange(start as int, i as int),
        decreases end - i,
    {
        r.push(v[i]);
        assert(v@.subrange(start as int, i + 1) =~= v@.subrange(start as int, i as int).push(
            v@[i as int],
        ));
        i = i + 1;
    }
    r
}

/// The origins listed in `v`, comma-separated.
pub fn parse_origin_list(v: &str) -> (r: Vec<String>)
    ensures
        str_seq_view(r@) == origin_list(v@),
{
    let parts = split_chars(v, ',');
    let ghost pieces = split_on(v@, ',');
    let ghost trimmed = pieces.map_values(|p: Seq<char>| trim(p));
    let mut out: Vec<String> = Vec::new();
    let mut i: usize = 0;
    while i < parts.len()
        invariant
            parts@.len() == pieces.len(),
            trimmed.len() == pieces.len(),
            forall|k: int| 0 <= k < parts@.len() ==> #[trigger] parts@[k]@ == pieces[k],
            forall|k: int| 0 <= k < trimmed.len() ==> #[trigger] trimmed[k] == trim(pieces[k]),
            i <= parts@.len(),
            str_seq_view(out@) == keep_nonempty(trimmed.take(i as int)),
        decreases parts@.len() - i,
    {
        let t = trim_chars(&parts[i]);
        assert(trimmed.take(i + 1).drop_last() =~= trimmed.take(i as int));
        assert(trimmed.take(i + 1).last() == t@);
        if t.len() > 0 {
            let ghost before = str_seq_view(out@);
            out.push(string_from_chars(&t));
            assert(str_seq_view(out@) =~= before.push(t@));
        }
        i = i + 1;
    }
    assert(trimmed.take(parts@.len() as int) =~= trimmed);
    out
}

impl AppConfig {
    /// The settings used when there is no configuration file.
    pub fn fallback() -> (r: AppConfig)
        ensures
            r.default_lease_duration_ms == 30_000,
            r.max_payload_bytes == 262_144,
            r.lease_sweep_interval_ms == 1_000,
            r.recent_history_limit == 10_000,
            r.heartbeat_interval_ms == 10_000,
            r.offline_threshold_ms == 30_000,
            r.max_lease_renewals == 100,
            str_seq_view(r.cors_origins@) == seq!["http://localhost:3000"@, "http://localhost:3001"@],
            r.server.grpc_addr@ == "0.0.0.0:50051"@,
            r.server.http_addr@ == "0.0.0.0:8080"@,
            r.storage.redis_url@ == "redis://127.0.0.1:6379"@,
            r.storage.namespace@ == "default"@,
            r.observability.log_level@ == "info"@,
            r.observability.log_format@ == "json"@,
    {
        AppConfig {
            default_lease_duration_ms: default_lease_duration_ms(),
            max_payload_bytes: default_max_payload(),
            lease_sweep_interval_ms: default_sweep_interval(),
            recent_history_limit: default_history_limit(),
            heartbeat_interval_ms: default_heartbeat_interval(),
            offline_threshold_ms: default_offline_threshold(),
            max_lease_renewals: default_max_renewals(),
            cors_origins: default_cors_origins(),
            server: ServerConfig {
                grpc_addr: String::from_str("0.0.0.0:50051"),
                http_addr: String::from_str("0.0.0.0:8080"),
            },
            storage: StorageConfig {
                redis_url: String::from_str("redis://127.0.0.1:6379"),
                namespace: String::from_str("default"),
            },
            observability: ObservabilityConfig::default(),
        }
    }

    /// Applies the environment's overrides. A `FEATHER_LEASE_MS` that is not
    /// a `u64` is refused.
    pub fn apply_env(&mut self, env: EnvOverrides) -> (r: Result<(), ConfigError>)
        ensures
            (env.lease_ms matches Some(t) && parse_int(t@, false, 0, u64::MAX as int) is None) <==> r
                is Err,
            r is Ok ==> {
                &&& final(self).server.grpc_addr@ == (match env.grpc_addr {
                    Some(v) => v@,
                    None => old(self).server.grpc_addr@,
                })
                &&& final(self).server.http_addr@ == (match env.http_addr {
                    Some(v) => v@,
                    None => old(self).server.http_addr@,
                })
                &&& final(self).storage.redis_url@ == (match env.redis_url {
                    Some(v) => v@,
                    None => old(self).storage.redis_url@,
                })
                &&& final(self).storage.namespace@ == (match env.namespace {
                    Some(v) => v@,
                    None => old(self).storage.namespace@,
                })
                &&& final(self).default_lease_duration_ms == (match env.lease_ms {
                    Some(t) => parse_int(t@, false, 0, u64::MAX as int)->0 as u64,
                    None => old(self).default_lease_duration_ms,
                })
                &&& final(self).observability.log_level@ == (match env.log_level {
                    Some(v) => v@,
                    None => old(self).observability.log_level@,
                })
                &&& final(self).observability.log_format@ == old(self).observability.log_format@
                &&& str_seq_view(final(self).cors_origins@) == (match env.cors_origins {
                    Some(v) => origin_list(v@),
                    None => str_seq_view(old(self).cors_origins@),
                })
                &&& final(self).max_payload_bytes == old(self).max_payload_bytes
                &&& final(self).lease_sweep_interval_ms == old(self).lease_sweep_interval_ms
                &&& final(self).recent_history_limit == old(self).recent_history_limit
                &&& final(self).heartbeat_interval_ms == old(self).heartbeat_interval_ms
                &&& final(self).offline_threshold_ms == old(self).offline_threshold_ms
                &&& final(self).max_lease_renewals == old(self).max_lease_renewals
            },
    {
        let EnvOverrides {
            grpc_addr,
            http_addr,
            redis_url,
            namespace,
            lease_ms,
            log_level,
            cors_origins,
        } = env;
        if let Some(v) = grpc_addr {
            self.server.grpc_addr = v;
        }
        if let Some(v) = http_addr {
            self.server.http_addr = v;
        }
        if let Some(v) = redis_url {
            self.storage.redis_url = v;
        }
        if let Some(v) = namespace {
            self.storage.namespace = v;
        }
        if let Some(t) = lease_ms {
            match parse_u64(t.as_str()) {
                Some(ms) => {
                    self.default_lease_duration_ms = ms;
                },
                None => {
                    return Err(ConfigError::InvalidLeaseMs);
                },
            }
        }
        if let Some(v) = log_level {
            self.observability.log_level = v;
        }
        if let Some(v) = cors_origins {
            self.cors_origins = parse_origin_list(v.as_str());
        }
        Ok(())
    }
}

} // verus!
