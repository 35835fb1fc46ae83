//! Node configuration: its shape, defaults and validation.

use vstd::prelude::*;
use crate::outside::{is_uuid_text, new_uuid_v4_string};
use crate::text::{decimal, push_decimal, starts_with};

verus! {

/// Main application configuration.
#[derive(Debug, Clone)]
pub struct Config {
    pub server: ServerConfig,
    pub redis: RedisConfig,
    pub cdn: CdnConfig,
    pub streaming: StreamingConfig,
}

/// HTTP/RTMP server configuration.
#[derive(Debug, Clone)]
pub struct ServerConfig {
    /// HTTP API port
    pub http_port: u16,
    /// RTMP ingest port
    pub rtmp_port: u16,
    /// Bind address (0.0.0.0 for all interfaces)
    pub bind_addr: String,
    /// Server node ID (unique identifier)
    pub node_id: String,
    /// Node type: "origin" or "edge"
    pub node_type: NodeType,
    /// Geographic location (e.g., "EU-WEST", "US-EAST")
    pub location: String,
}

#[derive(Debug, Clone, Copy, PartialEq, Eq, Structural)]
pub enum NodeType {
    Origin,
    Edge,
}

/// Redis configuration for the distributed cache.
#[derive(Debug, Clone)]
pub struct RedisConfig {
    /// Redis connection URL
    pub url: String,
    /// Connection pool size
    pub pool_size: u32,
    /// Connection timeout in seconds
    pub timeout_seconds: u64,
    /// Enable Redis cluster mode
    pub cluster_mode: bool,
    /// Redis key prefix for namespacing
    pub key_prefix: String,
}

/// CDN-specific configuration.
#[derive(Debug, Clone)]
pub struct CdnConfig {
    /// In-memory cache size (number of segments)
    pub memory_cache_size: usize,
    /// Segment TTL in Redis (seconds)
    pub segment_ttl: u64,
    /// Maximum edge node capacity (concurrent viewers)
    pub max_node_capacity: usize,
    /// Enable edge caching
    pub enable_edge_cache: bool,
    /// Origin server URL (for edge nodes)
    pub origin_url: Option<String>,
    /// Enable CDN statistics
    pub enable_stats: bool,
    /// Load balancing strategy for edge nodes:
    /// "least-connections", "geographic", "weighted", "round-robin" or "random"
    pub load_balancing_strategy: String,
    /// Maximum heartbeat age before a node is unhealthy (seconds)
    pub heartbeat_timeout_seconds: u64,
    /// Maximum load percentage before a node is overloaded, as the bit pattern of
    /// an IEEE-754 double (the library only carries it)
    pub max_load_percentage_bits: u64,
}

/// Streaming protocol configuration.
#[derive(Debug, Clone)]
pub struct StreamingConfig {
    /// HLS segment duration in seconds
    pub hls_segment_duration: u32,
    /// HLS playlist window size (number of segments)
    pub hls_playlist_size: usize,
    /// Enable DASH streaming
    pub enable_dash: bool,
    /// Enable WebRTC streaming
    pub enable_webrtc: bool,
    /// DVR window duration in seconds
    pub dvr_window_seconds: u64,
    /// Default video codec
    pub default_codec: VideoCodec,
    /// Enable adaptive bitrate
    pub enable_abr: bool,
    /// Transcoding profiles
    pub profiles: Vec<TranscodingProfile>,
}

#[derive(Debug, Clone, Copy, PartialEq, Eq, Structural)]
pub enum VideoCodec {
    H264,
    H265,
    VP9,
    AV1,
}

#[derive(Debug)]
pub struct TranscodingProfile {
    pub name: String,
    pub width: u32,
    pub height: u32,
    pub bitrate_kbps: u32,
    pub fps: u32,
}

impl Clone for TranscodingProfile {
    fn clone(&self) -> (r: Self)
        ensures
            r == *self,
    {
        TranscodingProfile {
            name: self.name.clone(),
            width: self.width,
            height: self.height,
            bitrate_kbps: self.bitrate_kbps,
            fps: self.fps,
        }
    }
}

/// Configuration errors.
#[derive(Debug)]
pub enum ConfigError {
    FileReadError(String),
    ParseError(String),
    InvalidValue(String),
    MissingField(String),
}

/// The first rule a configuration breaks, as the message of its error; none if valid.
pub open spec fn validation_error(c: Config) -> Option<Seq<char>> {
    if c.server.http_port == 0 {
        Some("http_port cannot be 0"@)
    } else if c.server.rtmp_port == 0 {
        Some("rtmp_port cannot be 0"@)
    } else if c.server.node_id@.len() == 0 {
        Some("node_id cannot be empty"@)
    } else if c.redis.url@.len() == 0 {
        Some("redis_url cannot be empty"@)
    } else if c.cdn.memory_cache_size == 0 {
        Some("memory_cache_size must be > 0"@)
    } else if c.server.node_type == NodeType::Edge && c.cdn.origin_url is None {
        Some("Edge nodes must have origin_url configured"@)
    } else {
        None
    }
}

/// A transcoding profile given by its fields.
pub open spec fn profile_is(p: TranscodingProfile, name: Seq<char>, width: u32, height: u32, kbps: u32, fps: u32) -> bool {
    p.name@ == name && p.width == width && p.height == height && p.bitrate_kbps == kbps && p.fps == fps
}

fn profile(name: &str, width: u32, height: u32, bitrate_kbps: u32, fps: u32) -> (p: TranscodingProfile)
    ensures
        profile_is(p, name@, width, height, bitrate_kbps, fps),
{
    TranscodingProfile { name: String::from_str(name), width, height, bitrate_kbps, fps }
}

impl Config {
    /// Checks the configuration; the error names the first rule broken.
    pub fn validate(&self) -> (r: Result<(), ConfigError>)
        ensures
            r is Ok <==> validation_error(*self) is None,
            r matches Err(e) ==> (e matches ConfigError::InvalidValue(msg) && Some(msg@) == validation_error(*self)),
    {
        if self.server.http_port == 0 {
            return Err(ConfigError::InvalidValue(String::from_str("http_port cannot be 0")));
        }
        if self.server.rtmp_port == 0 {
            return Err(ConfigError::InvalidValue(String::from_str("rtmp_port cannot be 0")));
        }
        if self.server.node_id.as_str().unicode_len() == 0 {
            return Err(ConfigError::InvalidValue(String::from_str("node_id cannot be empty")));
        }
        if self.redis.url.as_str().unicode_len() == 0 {
            return Err(ConfigError::InvalidValue(String::from_str("redis_url cannot be empty")));
        }
        if self.cdn.memory_cache_size == 0 {
            return Err(ConfigError::InvalidValue(String::from_str("memory_cache_size must be > 0")));
        }
        if self.server.node_type == NodeType::Edge && self.cdn.origin_url.is_none() {
            return Err(ConfigError::InvalidValue(String::from_str("Edge nodes must have origin_url configured")));
        }
        Ok(())
    }

    /// The HTTP listen address as text, `bind_addr:http_port` (the caller parses it).
    pub fn http_addr_text(&self) -> (a: String)
        ensures
            a@ == self.server.bind_addr@ + ":"@ + decimal(self.server.http_port as nat),
    {
        let mut a = self.server.bind_addr.clone();
        a.append(":");
        push_decimal(&mut a, self.server.http_port as u64);
        a
    }

    /// The RTMP listen address as text, `bind_addr:rtmp_port` (the caller parses it).
    pub fn rtmp_addr_text(&self) -> (a: String)
        ensures
            a@ == self.server.bind_addr@ + ":"@ + decimal(self.server.rtmp_port as nat),
    {
        let mut a = self.server.bind_addr.clone();
        a.append(":");
        push_decimal(&mut a, self.server.rtmp_port as u64);
        a
    }

    /// Whether this node is an origin.
    pub fn is_origin(&self) -> (b: bool)
        ensures
            b == (self.server.node_type == NodeType::Origin),
    {
        self.server.node_type == NodeType::Origin
    }

    /// Whether this node is an edge.
    pub fn is_edge(&self) -> (b: bool)
        ensures
            b == (self.server.node_type == NodeType::Edge),
    {
        self.server.node_type == NodeType::Edge
    }
}

impl StreamingConfig {
    /// The four standard profiles: 360p, 720p, 1080p and 2160p at 30 fps.
    pub fn default_profiles() -> (ps: Vec<TranscodingProfile>)
        ensures
            ps@.len() == 4,
            profile_is(ps@[0], "360p"@, 640, 360, 1000, 30),
            profile_is(ps@[1], "720p"@, 1280, 720, 3000, 30),
            profile_is(ps@[2], "1080p"@, 1920, 1080, 6000, 30),
            profile_is(ps@[3], "2160p"@, 3840, 2160, 12000, 30),
    {
        let mut ps: Vec<TranscodingProfile> = Vec::new();
        ps.push(profile("360p", 640, 360, 1000, 30));
        ps.push(profile("720p", 1280, 720, 3000, 30));
        ps.push(profile("1080p", 1920, 1080, 6000, 30));
        ps.push(profile("2160p", 3840, 2160, 12000, 30));
        ps
    }
}

impl Default for ServerConfig {
    /// Ports 3000 and 1935 on all interfaces, a random `node-<uuid>` id, origin, location "UNKNOWN".
    fn default() -> (c: Self)
        ensures
            c.http_port == 3000,
            c.rtmp_port == 1935,
            c.bind_addr@ == "0.0.0.0"@,
            starts_with(c.node_id@, "node-"@),
            is_uuid_text(c.node_id@.subrange(5, c.node_id@.len() as int)),
            c.node_type == NodeType::Origin,
            c.location@ == "UNKNOWN"@,
    {
        let node_id = String::from_str("node-").concat(new_uuid_v4_string().as_str());
        proof {
            reveal_strlit("node-");
            assert(node_id@.subrange(0, 5) =~= "node-"@);
        }
        let c = ServerConfig {
            http_port: 3000,
            rtmp_port: 1935,
            bind_addr: String::from_str("0.0.0.0"),
            node_id,
            node_type: NodeType::Origin,
            location: String::from_str("UNKNOWN"),
        };
        proof {
            assert(c.node_id@.subrange(5, c.node_id@.len() as int) =~= c.node_id@.subrange(5, c.node_id@.len() as int));
        }
        c
    }
}

impl Default for RedisConfig {
    fn default() -> (c: Self)
        ensures
            c.url@ == "redis://127.0.0.1:6379"@,
            c.pool_size == 10,
            c.timeout_seconds == 5,
            !c.cluster_mode,
            c.key_prefix@ == "stream:"@,
    {
        RedisConfig {
            url: String::from_str("redis://127.0.0.1:6379"),
            pool_size: 10,
            timeout_seconds: 5,
            cluster_mode: false,
            key_prefix: String::from_str("stream:"),
        }
    }
}

/// Bit pattern of the double 90.0.
pub const NINETY_PERCENT_BITS: u64 = 0x4056800000000000u64;

impl Default for CdnConfig {
    fn default() -> (c: Self)
        ensures
            c.memory_cache_size == 10000,
            c.segment_ttl == 300,
            c.max_node_capacity == 5000,
            c.enable_edge_cache,
            c.origin_url is None,
            c.enable_stats,
            c.load_balancing_strategy@ == "least-connections"@,
            c.heartbeat_timeout_seconds == 30,
            c.max_load_percentage_bits == NINETY_PERCENT_BITS,
    {
        CdnConfig {
            memory_cache_size: 10000,
            segment_ttl: 300,
            max_node_capacity: 5000,
            enable_edge_cache: true,
            origin_url: None,
            enable_stats: true,
            load_balancing_strategy: String::from_str("least-connections"),
            heartbeat_timeout_seconds: 30,
            max_load_percentage_bits: NINETY_PERCENT_BITS,
        }
    }
}

impl Default for StreamingConfig {
    /// 6 s segments, a 10-segment playlist, DASH, WebRTC and ABR on, a 60 s DVR
    /// window, H.264, and the 360p, 720p and 1080p profiles.
    fn default() -> (c: Self)
        ensures
            c.hls_segment_duration == 6,
            c.hls_playlist_size == 10,
            c.enable_dash,
            c.enable_webrtc,
            c.dvr_window_seconds == 60,
            c.default_codec == VideoCodec::H264,
            c.enable_abr,
            c.profiles@.len() == 3,
            profile_is(c.profiles@[0], "360p"@, 640, 360, 1000, 30),
            profile_is(c.profiles@[1], "720p"@, 1280, 720, 3000, 30),
            profile_is(c.profiles@[2], "1080p"@, 1920, 1080, 6000, 30),
    {
        let mut profiles: Vec<TranscodingProfile> = Vec::new();
        profiles.push(profile("360p", 640, 360, 1000, 30));
        profiles.push(profile("720p", 1280, 720, 3000, 30));
        profiles.push(profile("1080p", 1920, 1080, 6000, 30));
        StreamingConfig {
            hls_segment_duration: 6,
            hls_playlist_size: 10,
            enable_dash: true,
            enable_webrtc: true,
            dvr_window_seconds: 60,
            default_codec: VideoCodec::H264,
            enable_abr: true,
            profiles,
        }
    }
}

impl Default for Config {
    fn default() -> (c: Self)
        ensures
            c.server.http_port == 3000,
            c.server.rtmp_port == 1935,
            c.server.node_type == NodeType::Origin,
            starts_with(c.server.node_id@, "node-"@),
            c.redis.url@ == "redis://127.0.0.1:6379"@,
            c.cdn.memory_cache_size == 10000,
            c.cdn.origin_url is None,
            c.cdn.load_balancing_strategy@ == "least-connections"@,
            c.streaming.profiles@.len() == 3,
            validation_error(c) is None,
    {
        let c = Config {
            server: ServerConfig::default(),
            redis: RedisConfig::default(),
            cdn: CdnConfig::default(),
            streaming: StreamingConfig::default(),
        };
        proof {
            reveal_strlit("redis://127.0.0.1:6379");
            reveal_strlit("node-");
            assert(c.server.node_id@.len() >= 5);
        }
        c
    }
}

} // verus!
