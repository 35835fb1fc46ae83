//! Configuration from environment variables: lookup with defaults and the
//! reading of numbers and flags as `str::parse` reads them. The variables are
//! handed in as (name, value) pairs.

use vstd::prelude::*;
use crate::config::settings::{
    profile_is, CdnConfig, Config, NodeType, RedisConfig, ServerConfig, StreamingConfig, VideoCodec,
};
use crate::outside::{is_uuid_text, new_uuid_v4_string};
use crate::text::str_eq;

verus! {

/// The value of the first variable named `key`, if any.
pub open spec fn env_value(vars: Seq<(String, String)>, key: Seq<char>) -> Option<Seq<char>>
    decreases vars.len(),
{
    if vars.len() == 0 {
        None
    } else if vars[0].0@ == key {
        Some(vars[0].1@)
    } else {
        env_value(vars.drop_first(), key)
    }
}

/// The value of variable `key`, or `default` when it is not set.
pub open spec fn var_or(vars: Seq<(String, String)>, key: Seq<char>, default: Seq<char>) -> Seq<char> {
    match env_value(vars, key) {
        Some(v) => v,
        None => default,
    }
}

/// The value of variable `key`, if set.
pub fn env_var(vars: &Vec<(String, String)>, key: &str) -> (r: Option<String>)
    ensures
        r matches Some(v) ==> env_value(vars@, key@) == Some(v@),
        r is None ==> env_value(vars@, key@) is None,
{
    let mut i: usize = 0;
    assert(vars@.skip(0) =~= vars@);
    while i < vars.len()
        invariant
            i <= vars@.len(),
            env_value(vars@, key@) == env_value(vars@.skip(i as int), key@),
        decreases vars@.len() - i,
    {
        if str_eq(vars[i].0.as_str(), key) {
            return Some(vars[i].1.clone());
        }
        assert(vars@.skip(i as int).drop_first() =~= vars@.skip(i + 1));
        i = i + 1;
    }
    None
}

/// The value of variable `key`, or `default` when it is not set.
pub fn env_var_or(vars: &Vec<(String, String)>, key: &str, default: &str) -> (s: String)
    ensures
        s@ == var_or(vars@, key@, default@),
{
    proof {
        assert(vars@.skip(0) =~= vars@);
    }
    match env_var(vars, key) {
        Some(v) => v,
        None => String::from_str(default),
    }
}

/// Whether every character is a decimal digit, and there is at least one.
pub open spec fn all_digits(s: Seq<char>) -> bool {
    s.len() > 0 && forall|i: int| 0 <= i < s.len() ==> '0' <= #[trigger] s[i] <= '9'
}

/// The number a string of decimal digits denotes.
pub open spec fn digits_value(s: Seq<char>) -> nat
    decreases s.len(),
{
    if s.len() == 0 { 0 } else { digits_value(s.drop_last()) * 10 + (s.last() as nat - '0' as nat) as nat }
}

/// What `str::parse` reads as an unsigned integer no larger than `max`: an
/// optional `+` and then decimal digits whose value fits.
pub open spec fn unsigned_value(s: Seq<char>, max: nat) -> Option<nat> {
    let body = if s.len() > 0 && s[0] == '+' { s.drop_first() } else { s };
    if all_digits(body) && digits_value(body) <= max { Some(digits_value(body)) } else { None }
}

/// What `str::parse` reads as a `bool`.
pub open spec fn bool_value(s: Seq<char>) -> Option<bool> {
    if s == "true"@ {
        Some(true)
    } else if s == "false"@ {
        Some(false)
    } else {
        None
    }
}

proof fn lemma_digits_value_grows(s: Seq<char>, i: int)
    requires
        0 <= i <= s.len(),
        forall|j: int| 0 <= j < s.len() ==> '0' <= #[trigger] s[j] <= '9',
    ensures
        digits_value(s.take(i)) <= digits_value(s),
    decreases s.len() - i,
{
    if i < s.len() {
        lemma_digits_value_grows(s, i + 1);
        assert(s.take(i + 1).drop_last() =~= s.take(i));
    } else {
        assert(s.take(i) =~= s);
    }
}

/// Reads an unsigned integer no larger than `max` as `str::parse` does.
pub fn parse_unsigned(s: &str, max: u64) -> (r: Option<u64>)
    ensures
        r matches Some(v) ==> unsigned_value(s@, max as nat) == Some(v as nat),
        r is None ==> unsigned_value(s@, max as nat) is None,
{
    let n = s.unicode_len();
    let mut start: usize = 0;
    if n > 0 && s.get_char(0) == '+' {
        start = 1;
    }
    let ghost body = if s@.len() > 0 && s@[0] == '+' { s@.drop_first() } else { s@ };
    assert(body =~= s@.skip(start as int));
    if start >= n {
        return None;
    }
    let mut acc: u64 = 0;
    let mut i: usize = start;
    while i < n
        invariant
            start <= i <= n,
            n == s@.len(),
            body == s@.skip(start as int),
            body == (if s@.len() > 0 && s@[0] == '+' { s@.drop_first() } else { s@ }),
            forall|j: int| start <= j < i ==> '0' <= #[trigger] s@[j] <= '9',
            acc as nat == digits_value(body.take(i - start)),
            acc <= max,
        decreases n - i,
    {
        let c = s.get_char(i);
        if c < '0' || c > '9' {
            assert(body[i - start] == c);
            return None;
        }
        let d = (c as u32 - '0' as u32) as u64;
        proof {
            assert(body.take(i - start + 1).drop_last() =~= body.take(i - start));
            assert(body.take(i - start + 1).last() == c);
        }
        let next: u128 = (acc as u128) * 10 + (d as u128);
        if next > max as u128 {
            proof {
                if all_digits(body) {
                    lemma_digits_value_grows(body, i - start + 1);
                }
            }
            return None;
        }
        acc = next as u64;
        i = i + 1;
    }
    assert(body.take(i - start) =~= body);
    Some(acc)
}


/// Reads a `bool` as `str::parse` does.
pub fn parse_bool(s: &str) -> (r: Option<bool>)
    ensures
        r == bool_value(s@),
{
    if str_eq(s, "true") {
        Some(true)
    } else if str_eq(s, "false") {
        Some(false)
    } else {
        None
    }
}

/// Variable `key` is unset or holds an unsigned integer no larger than `max`.
pub open spec fn uint_var_ok(vars: Seq<(String, String)>, key: Seq<char>, max: nat) -> bool {
    match env_value(vars, key) {
        Some(v) => unsigned_value(v, max) is Some,
        None => true,
    }
}

/// The unsigned integer in variable `key`, or `default` when it is unset.
pub open spec fn uint_var_or(vars: Seq<(String, String)>, key: Seq<char>, max: nat, default: nat) -> nat {
    match env_value(vars, key) {
        Some(v) => unsigned_value(v, max)->Some_0,
        None => default,
    }
}

/// Variable `key` is unset or holds `true` or `false`.
pub open spec fn bool_var_ok(vars: Seq<(String, String)>, key: Seq<char>) -> bool {
    match env_value(vars, key) {
        Some(v) => bool_value(v) is Some,
        None => true,
    }
}

/// The flag in variable `key`, or `default` when it is unset.
pub open spec fn bool_var_or(vars: Seq<(String, String)>, key: Seq<char>, default: bool) -> bool {
    match env_value(vars, key) {
        Some(v) => bool_value(v)->Some_0,
        None => default,
    }
}

fn uint_var(vars: &Vec<(String, String)>, key: &str, max: u64, default: u64) -> (v: u64)
    requires
        uint_var_ok(vars@, key@, max as nat),
        default <= max,
    ensures
        v as nat == uint_var_or(vars@, key@, max as nat, default as nat),
        v <= max,
{
    match env_var(vars, key) {
        Some(text) => {
            match parse_unsigned(text.as_str(), max) {
                Some(v) => v,
                None => default,
            }
        },
        None => default,
    }
}

fn bool_var(vars: &Vec<(String, String)>, key: &str, default: bool) -> (b: bool)
    requires
        bool_var_ok(vars@, key@),
    ensures
        b == bool_var_or(vars@, key@, default),
{
    match env_var(vars, key) {
        Some(text) => {
            match parse_bool(text.as_str()) {
                Some(b) => b,
                None => default,
            }
        },
        None => default,
    }
}

/// The numeric variables of the server section parse.
pub open spec fn server_env_ok(vars: Seq<(String, String)>) -> bool {
    &&& uint_var_ok(vars, "HTTP_PORT"@, u16::MAX as nat)
    &&& uint_var_ok(vars, "RTMP_PORT"@, u16::MAX as nat)
}

impl ServerConfig {
    /// The server section from `HTTP_PORT` (3000), `RTMP_PORT` (1935), `BIND_ADDR`
    /// ("0.0.0.0"), `NODE_ID` (`node-` and a random UUID), `NODE_TYPE` ("edge" for
    /// an edge node, an origin otherwise; "origin") and `NODE_LOCATION` ("UNKNOWN").
    pub fn from_env(vars: &Vec<(String, String)>) -> (c: Self)
        requires
            server_env_ok(vars@),
        ensures
            c.http_port as nat == uint_var_or(vars@, "HTTP_PORT"@, u16::MAX as nat, 3000),
            c.rtmp_port as nat == uint_var_or(vars@, "RTMP_PORT"@, u16::MAX as nat, 1935),
            c.bind_addr@ == var_or(vars@, "BIND_ADDR"@, "0.0.0.0"@),
            env_value(vars@, "NODE_ID"@) matches Some(v) ==> c.node_id@ == v,
            env_value(vars@, "NODE_ID"@) is None ==> c.node_id@.len() == 41 && c.node_id@.take(5) == "node-"@
                && is_uuid_text(c.node_id@.skip(5)),
            c.node_type == (if var_or(vars@, "NODE_TYPE"@, "origin"@) == "edge"@ { NodeType::Edge } else { NodeType::Origin }),
            c.location@ == var_or(vars@, "NODE_LOCATION"@, "UNKNOWN"@),
    {
        let http_port = uint_var(vars, "HTTP_PORT", 65535, 3000) as u16;
        let rtmp_port = uint_var(vars, "RTMP_PORT", 65535, 1935) as u16;
        let bind_addr = env_var_or(vars, "BIND_ADDR", "0.0.0.0");
        let generated = String::from_str("node-").concat(new_uuid_v4_string().as_str());
        proof {
            reveal_strlit("node-");
        }
        let node_id = env_var_or(vars, "NODE_ID", generated.as_str());
        proof {
            assert(generated@.take(5) =~= "node-"@);
        }
        let node_type_text = env_var_or(vars, "NODE_TYPE", "origin");
        let node_type = if str_eq(node_type_text.as_str(), "edge") { NodeType::Edge } else { NodeType::Origin };
        let location = env_var_or(vars, "NODE_LOCATION", "UNKNOWN");
        ServerConfig { http_port, rtmp_port, bind_addr, node_id, node_type, location }
    }
}

/// The numeric and flag variables of the Redis section parse.
pub open spec fn redis_env_ok(vars: Seq<(String, String)>) -> bool {
    &&& uint_var_ok(vars, "REDIS_POOL_SIZE"@, u32::MAX as nat)
    &&& uint_var_ok(vars, "REDIS_TIMEOUT"@, u64::MAX as nat)
    &&& bool_var_ok(vars, "REDIS_CLUSTER"@)
}

impl RedisConfig {
    /// The Redis section from `REDIS_URL` ("redis://127.0.0.1:6379"),
    /// `REDIS_POOL_SIZE` (10), `REDIS_TIMEOUT` (5), `REDIS_CLUSTER` (false) and
    /// `REDIS_KEY_PREFIX` ("stream:").
    pub fn from_env(vars: &Vec<(String, String)>) -> (c: Self)
        requires
            redis_env_ok(vars@),
        ensures
            c.url@ == var_or(vars@, "REDIS_URL"@, "redis://127.0.0.1:6379"@),
            c.pool_size as nat == uint_var_or(vars@, "REDIS_POOL_SIZE"@, u32::MAX as nat, 10),
            c.timeout_seconds as nat == uint_var_or(vars@, "REDIS_TIMEOUT"@, u64::MAX as nat, 5),
            c.cluster_mode == bool_var_or(vars@, "REDIS_CLUSTER"@, false),
            c.key_prefix@ == var_or(vars@, "REDIS_KEY_PREFIX"@, "stream:"@),
    {
        RedisConfig {
            url: env_var_or(vars, "REDIS_URL", "redis://127.0.0.1:6379"),
            pool_size: uint_var(vars, "REDIS_POOL_SIZE", 4294967295, 10) as u32,
            timeout_seconds: uint_var(vars, "REDIS_TIMEOUT", 18446744073709551615, 5),
            cluster_mode: bool_var(vars, "REDIS_CLUSTER", false),
            key_prefix: env_var_or(vars, "REDIS_KEY_PREFIX", "stream:"),
        }
    }
}

/// The numeric and flag variables of the CDN section parse.
pub open spec fn cdn_env_ok(vars: Seq<(String, String)>) -> bool {
    &&& uint_var_ok(vars, "CACHE_SIZE"@, usize::MAX as nat)
    &&& uint_var_ok(vars, "SEGMENT_TTL"@, u64::MAX as nat)
    &&& uint_var_ok(vars, "MAX_NODE_CAPACITY"@, usize::MAX as nat)
    &&& bool_var_ok(vars, "ENABLE_EDGE_CACHE"@)
    &&& bool_var_ok(vars, "ENABLE_STATS"@)
    &&& uint_var_ok(vars, "HEARTBEAT_TIMEOUT"@, u64::MAX as nat)
}

impl CdnConfig {
    /// The CDN section from `CACHE_SIZE` (10000), `SEGMENT_TTL` (300),
    /// `MAX_NODE_CAPACITY` (5000), `ENABLE_EDGE_CACHE` (true), `ORIGIN_URL` (unset),
    /// `ENABLE_STATS` (true), `LOAD_BALANCING_STRATEGY` ("least-connections") and
    /// `HEARTBEAT_TIMEOUT` (30); the load threshold, a double, is read by the caller.
    pub fn from_env(vars: &Vec<(String, String)>, max_load_percentage_bits: u64) -> (c: Self)
        requires
            cdn_env_ok(vars@),
        ensures
            c.memory_cache_size as nat == uint_var_or(vars@, "CACHE_SIZE"@, usize::MAX as nat, 10000),
            c.segment_ttl as nat == uint_var_or(vars@, "SEGMENT_TTL"@, u64::MAX as nat, 300),
            c.max_node_capacity as nat == uint_var_or(vars@, "MAX_NODE_CAPACITY"@, usize::MAX as nat, 5000),
            c.enable_edge_cache == bool_var_or(vars@, "ENABLE_EDGE_CACHE"@, true),
            env_value(vars@, "ORIGIN_URL"@) matches Some(v) ==> c.origin_url is Some && c.origin_url->Some_0@ == v,
            env_value(vars@, "ORIGIN_URL"@) is None ==> c.origin_url is None,
            c.enable_stats == bool_var_or(vars@, "ENABLE_STATS"@, true),
            c.load_balancing_strategy@ == var_or(vars@, "LOAD_BALANCING_STRATEGY"@, "least-connections"@),
            c.heartbeat_timeout_seconds as nat == uint_var_or(vars@, "HEARTBEAT_TIMEOUT"@, u64::MAX as nat, 30),
            c.max_load_percentage_bits == max_load_percentage_bits,
    {
        proof {
            assert(vars@.skip(0) =~= vars@);
        }
        CdnConfig {
            memory_cache_size: uint_var(vars, "CACHE_SIZE", usize::MAX as u64, 10000) as usize,
            segment_ttl: uint_var(vars, "SEGMENT_TTL", 18446744073709551615, 300),
            max_node_capacity: uint_var(vars, "MAX_NODE_CAPACITY", usize::MAX as u64, 5000) as usize,
            enable_edge_cache: bool_var(vars, "ENABLE_EDGE_CACHE", true),
            origin_url: env_var(vars, "ORIGIN_URL"),
            enable_stats: bool_var(vars, "ENABLE_STATS", true),
            load_balancing_strategy: env_var_or(vars, "LOAD_BALANCING_STRATEGY", "least-connections"),
            heartbeat_timeout_seconds: uint_var(vars, "HEARTBEAT_TIMEOUT", 18446744073709551615, 30),
            max_load_percentage_bits,
        }
    }
}

/// The numeric and flag variables of the streaming section parse.
pub open spec fn streaming_env_ok(vars: Seq<(String, String)>) -> bool {
    &&& uint_var_ok(vars, "HLS_SEGMENT_DURATION"@, u32::MAX as nat)
    &&& uint_var_ok(vars, "HLS_PLAYLIST_SIZE"@, usize::MAX as nat)
    &&& bool_var_ok(vars, "ENABLE_DASH"@)
    &&& bool_var_ok(vars, "ENABLE_WEBRTC"@)
    &&& uint_var_ok(vars, "DVR_WINDOW"@, u64::MAX as nat)
    &&& bool_var_ok(vars, "ENABLE_ABR"@)
}

impl StreamingConfig {
    /// The streaming section from `HLS_SEGMENT_DURATION` (6), `HLS_PLAYLIST_SIZE`
    /// (10), `ENABLE_DASH` (true), `ENABLE_WEBRTC` (true), `DVR_WINDOW` (60) and
    /// `ENABLE_ABR` (true), with H.264 and the four standard profiles.
    pub fn from_env(vars: &Vec<(String, String)>) -> (c: Self)
        requires
            streaming_env_ok(vars@),
        ensures
            c.hls_segment_duration as nat == uint_var_or(vars@, "HLS_SEGMENT_DURATION"@, u32::MAX as nat, 6),
            c.hls_playlist_size as nat == uint_var_or(vars@, "HLS_PLAYLIST_SIZE"@, usize::MAX as nat, 10),
            c.enable_dash == bool_var_or(vars@, "ENABLE_DASH"@, true),
            c.enable_webrtc == bool_var_or(vars@, "ENABLE_WEBRTC"@, true),
            c.dvr_window_seconds as nat == uint_var_or(vars@, "DVR_WINDOW"@, u64::MAX as nat, 60),
            c.default_codec == VideoCodec::H264,
            c.enable_abr == bool_var_or(vars@, "ENABLE_ABR"@, true),
            c.profiles@.len() == 4,
            profile_is(c.profiles@[0], "360p"@, 640, 360, 1000, 30),
            profile_is(c.profiles@[1], "720p"@, 1280, 720, 3000, 30),
            profile_is(c.profiles@[2], "1080p"@, 1920, 1080, 6000, 30),
            profile_is(c.profiles@[3], "2160p"@, 3840, 2160, 12000, 30),
    {
        StreamingConfig {
            hls_segment_duration: uint_var(vars, "HLS_SEGMENT_DURATION", 4294967295, 6) as u32,
            hls_playlist_size: uint_var(vars, "HLS_PLAYLIST_SIZE", usize::MAX as u64, 10) as usize,
            enable_dash: bool_var(vars, "ENABLE_DASH", true),
            enable_webrtc: bool_var(vars, "ENABLE_WEBRTC", true),
            dvr_window_seconds: uint_var(vars, "DVR_WINDOW", 18446744073709551615, 60),
            default_codec: VideoCodec::H264,
            enable_abr: bool_var(vars, "ENABLE_ABR", true),
            profiles: StreamingConfig::default_profiles(),
        }
    }
}

impl Config {
    /// The whole configuration from the environment variables (see each section).
    pub fn load_from_env(vars: &Vec<(String, String)>, max_load_percentage_bits: u64) -> (c: Self)
        requires
            server_env_ok(vars@),
            redis_env_ok(vars@),
            cdn_env_ok(vars@),
            streaming_env_ok(vars@),
        ensures
            c.server.http_port as nat == uint_var_or(vars@, "HTTP_PORT"@, u16::MAX as nat, 3000),
            c.redis.url@ == var_or(vars@, "REDIS_URL"@, "redis://127.0.0.1:6379"@),
            c.cdn.memory_cache_size as nat == uint_var_or(vars@, "CACHE_SIZE"@, usize::MAX as nat, 10000),
            c.cdn.max_load_percentage_bits == max_load_percentage_bits,
            c.streaming.profiles@.len() == 4,
    {
        Config {
            server: ServerConfig::from_env(vars),
            redis: RedisConfig::from_env(vars),
            cdn: CdnConfig::from_env(vars, max_load_percentage_bits),
            streaming: StreamingConfig::from_env(vars),
        }
    }
}

} // verus!
