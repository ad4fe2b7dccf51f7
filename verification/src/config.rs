//! The gateway's configuration.

use std::time::Duration;
use vstd::prelude::*;

verus! {

/// The whole configuration of a gateway node.
#[derive(Clone, Debug)]
pub struct AppConfig {
    /// Base settings of the gateway.
    pub comet: CometConfig,
    /// The shared cache of user routes and room members.
    pub redis: RedisConfig,
    /// The message queue.
    pub kafka: KafkaConfig,
    /// The registry of gateway nodes.
    pub registry: RegistryConfig,
    /// The local cache of rooms.
    pub room_cache: RoomCacheConfig,
}

/// Base settings of a gateway node.
#[derive(Clone, Debug)]
pub struct CometConfig {
    /// Identifier of this node among the gateway's nodes.
    pub node_id: String,
    /// Address the TCP and WebSocket listeners bind.
    pub listen_addr: String,
    /// Address of the node's gRPC push service.
    pub grpc_addr: String,
    /// Heartbeat interval in milliseconds.
    pub heartbeat_ms: u64,
    /// Whether the node runs with others (true) or alone (false).
    pub enable_distributed: bool,
}

/// Settings of the shared cache.
#[derive(Clone, Debug)]
pub struct RedisConfig {
    /// Address of the server; several are separated by commas.
    pub addr: String,
    pub password: Option<String>,
    pub db: u8,
    /// Size of the connection pool.
    pub pool_size: u32,
    /// Time to live of an online user's route, in seconds.
    pub online_ttl_sec: u64,
}

/// Settings of the message queue producer.
#[derive(Clone, Debug)]
pub struct KafkaConfig {
    /// Broker addresses, separated by commas.
    pub brokers: String,
    /// Topic of messages sent by clients.
    pub up_topic: String,
    /// Topic of push jobs.
    pub push_task_topic: String,
    /// Size of the producer's queue.
    pub queue_buffering_max_messages: usize,
}

/// Settings of the node registry.
#[derive(Clone, Debug)]
pub struct RegistryConfig {
    pub endpoints: String,
    /// Interval of the node's heartbeat to the registry, in milliseconds.
    pub heartbeat_interval_ms: u64,
    /// Prefix of the keys under which nodes register.
    pub service_prefix: String,
}

/// Settings of the local cache of rooms.
#[derive(Clone, Debug)]
pub struct RoomCacheConfig {
    /// Most rooms kept locally.
    pub max_local_room: usize,
    /// Interval of the local cache's sync with the shared cache, in seconds.
    pub sync_redis_interval_sec: u64,
    /// Whether empty rooms are dropped.
    pub auto_clear_empty_room: bool,
}

/// The duration `Duration::from_millis` makes of a count of milliseconds.
pub uninterp spec fn millis_duration(ms: u64) -> Duration;

/// Calls `Duration::from_millis`. Claimed: its result, named by `millis_duration`.
#[verifier::external_body]
fn duration_from_millis(ms: u64) -> (d: Duration)
    ensures
        d == millis_duration(ms),
{
    Duration::from_millis(ms)
}

/// The time after which a silent connection is dropped: two heartbeat intervals of
/// `heartbeat_ms` milliseconds.
pub fn heartbeat_timeout_of(heartbeat_ms: u64) -> (d: Duration)
    requires
        heartbeat_ms <= u64::MAX / 2,
    ensures
        d == millis_duration((heartbeat_ms * 2) as u64),
{
    duration_from_millis(heartbeat_ms * 2)
}

impl AppConfig {
    /// The time after which a silent connection is dropped: two heartbeat intervals.
    pub fn heartbeat_timeout(&self) -> (d: Duration)
        requires
            self.comet.heartbeat_ms <= u64::MAX / 2,
        ensures
            d == millis_duration((self.comet.heartbeat_ms * 2) as u64),
    {
        heartbeat_timeout_of(self.comet.heartbeat_ms)
    }

    /// Puts the node id given by the environment, if any, in place of the configured one.
    pub fn with_env_node_id(&mut self, node_id: Option<String>)
        ensures
            final(self).comet.node_id == (match node_id {
                Some(id) => id,
                None => old(self).comet.node_id,
            }),
            final(self).comet.listen_addr == old(self).comet.listen_addr,
            final(self).comet.grpc_addr == old(self).comet.grpc_addr,
            final(self).comet.heartbeat_ms == old(self).comet.heartbeat_ms,
            final(self).comet.enable_distributed == old(self).comet.enable_distributed,
            final(self).redis == old(self).redis,
            final(self).kafka == old(self).kafka,
            final(self).registry == old(self).registry,
            final(self).room_cache == old(self).room_cache,
    {
        if let Some(id) = node_id {
            self.comet.node_id = id;
        }
    }
}

} // verus!
