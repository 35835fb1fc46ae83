//! The node's health report: its status from the distributed cache's
//! reachability and the viewer load, and the HTTP status that goes with it.

use vstd::prelude::*;
use crate::api::hls::{STATUS_OK, STATUS_SERVICE_UNAVAILABLE};
use crate::config::settings::{Config, NodeType};
use crate::outside::now_nanos;

verus! {

/// Overall health of the node.
#[derive(Debug, Clone, Copy, PartialEq, Eq, Structural)]
pub enum HealthStatus {
    Healthy,
    Degraded,
    Unhealthy,
}

/// The health report of the node.
#[derive(Debug)]
pub struct HealthResponse {
    pub status: HealthStatus,
    pub node_id: String,
    pub node_type: String,
    pub location: String,
    pub uptime_seconds: u64,
    pub version: String,
    pub redis_connected: bool,
    pub active_streams: usize,
    pub total_viewers: usize,
}

/// Unhealthy without the distributed cache; degraded with more viewers than the
/// node's capacity; healthy otherwise.
pub open spec fn health_of(redis_connected: bool, total_viewers: usize, max_node_capacity: usize) -> HealthStatus {
    if !redis_connected {
        HealthStatus::Unhealthy
    } else if total_viewers > max_node_capacity {
        HealthStatus::Degraded
    } else {
        HealthStatus::Healthy
    }
}

/// The node's health status.
pub fn assess_health(redis_connected: bool, total_viewers: usize, max_node_capacity: usize) -> (s: HealthStatus)
    ensures
        s == health_of(redis_connected, total_viewers, max_node_capacity),
{
    if !redis_connected {
        HealthStatus::Unhealthy
    } else if total_viewers > max_node_capacity {
        HealthStatus::Degraded
    } else {
        HealthStatus::Healthy
    }
}

/// The HTTP status of a health report: 503 when unhealthy, else 200.
pub fn health_http_status(status: HealthStatus) -> (code: u16)
    ensures
        code == (if status == HealthStatus::Unhealthy { STATUS_SERVICE_UNAVAILABLE } else { STATUS_OK }),
{
    match status {
        HealthStatus::Healthy => STATUS_OK,
        HealthStatus::Degraded => STATUS_OK,
        HealthStatus::Unhealthy => STATUS_SERVICE_UNAVAILABLE,
    }
}

/// The lowercase name of a node type.
pub open spec fn node_type_text(t: NodeType) -> Seq<char> {
    match t {
        NodeType::Origin => "origin"@,
        NodeType::Edge => "edge"@,
    }
}

/// The lowercase name of a node type, as reported.
pub fn node_type_name(t: NodeType) -> (s: &'static str)
    ensures
        s@ == node_type_text(t),
{
    match t {
        NodeType::Origin => "origin",
        NodeType::Edge => "edge",
    }
}

/// Whole seconds from `start` to `now` (nanoseconds since the UNIX epoch); zero
/// when the clock reads earlier than `start`.
pub open spec fn seconds_between(start: u64, now: u64) -> u64 {
    if now >= start { ((now - start) / 1_000_000_000) as u64 } else { 0 }
}

/// Whole seconds from `start` to `now`.
pub fn uptime_between(start: u64, now: u64) -> (s: u64)
    ensures
        s == seconds_between(start, now),
{
    if now >= start { (now - start) / 1_000_000_000 } else { 0 }
}

/// Whole seconds since the node started at `start_nanos` (nanoseconds since the
/// UNIX epoch), by the current clock.
pub fn get_uptime_seconds(start_nanos: u64) -> (s: u64)
    ensures
        exists|now: u64| s == seconds_between(start_nanos, now),
{
    let now = now_nanos();
    uptime_between(start_nanos, now)
}

/// The health report and its HTTP status, from the probe of the distributed
/// cache, the stream and viewer totals, the uptime and the software version.
pub fn health_report(
    config: &Config,
    redis_connected: bool,
    active_streams: usize,
    total_viewers: usize,
    uptime_seconds: u64,
    version: &str,
) -> (r: (u16, HealthResponse))
    ensures
        r.1.status == health_of(redis_connected, total_viewers, config.cdn.max_node_capacity),
        r.0 == (if r.1.status == HealthStatus::Unhealthy { STATUS_SERVICE_UNAVAILABLE } else { STATUS_OK }),
        r.1.node_id@ == config.server.node_id@,
        r.1.node_type@ == node_type_text(config.server.node_type),
        r.1.location@ == config.server.location@,
        r.1.uptime_seconds == uptime_seconds,
        r.1.version@ == version@,
        r.1.redis_connected == redis_connected,
        r.1.active_streams == active_streams,
        r.1.total_viewers == total_viewers,
{
    let status = assess_health(redis_connected, total_viewers, config.cdn.max_node_capacity);
    let code = health_http_status(status);
    let response = HealthResponse {
        status,
        node_id: config.server.node_id.clone(),
        node_type: String::from_str(node_type_name(config.server.node_type)),
        location: config.server.location.clone(),
        uptime_seconds,
        version: String::from_str(version),
        redis_connected,
        active_streams,
        total_viewers,
    };
    (code, response)
}

} // verus!
