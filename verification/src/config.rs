//! Node configuration with defaults and overrides.
//!
//! Configuration is assembled in order of priority (highest first):
//! overrides (from the environment), the config file, then defaults. Paths
//! are held as text.

use vstd::prelude::*;
use vstd::string::*;

use crate::net::{IpAddress, SocketAddress};

verus! {

/// The platform whose data-directory layout applies.
#[derive(Debug, Clone, Copy, PartialEq, Eq)]
pub enum Platform {
    /// Under `%APPDATA%`.
    Windows,
    /// Under `$HOME/Library/Application Support`.
    MacOs,
    /// Under `$HOME/.local/share`.
    Unix,
}

/// Node-level settings.
#[derive(Debug, Clone)]
pub struct NodeConfig {
    /// Human-readable name for this node.
    pub name: String,
    /// Data directory for persistent state.
    pub data_dir: String,
    /// Enable relay mode (this node acts as a relay for others).
    pub relay_enabled: bool,
    /// Maximum number of concurrent connections.
    pub max_connections: usize,
}

/// Transport layer settings.
#[derive(Debug, Clone)]
pub struct TransportConfig {
    /// Listen address for the data-plane transport.
    pub listen_addr: SocketAddress,
    /// Bootstrap nodes for initial peer discovery.
    pub bootstrap_nodes: Vec<String>,
    /// Connection timeout in milliseconds.
    pub connect_timeout_ms: u64,
    /// Keep-alive interval in seconds.
    pub keepalive_secs: u64,
}

/// Identity and key management settings.
#[derive(Debug, Clone)]
pub struct IdentityConfig {
    /// Path to the private key file.
    pub key_path: String,
    /// Enable automatic key rotation.
    pub auto_rotate: bool,
    /// Key rotation interval in hours (if auto_rotate is true).
    pub rotation_interval_hours: u64,
}

/// Telemetry and observability settings.
#[derive(Debug, Clone)]
pub struct TelemetryConfig {
    /// Log level filter (e.g., "info", "debug", "omnimesh=trace").
    pub log_level: String,
    /// Enable JSON-formatted log output.
    pub json_logs: bool,
    /// Enable metrics export.
    pub metrics_enabled: bool,
    /// Metrics export endpoint (if metrics_enabled).
    pub metrics_endpoint: Option<String>,
}

/// Persistent storage settings.
#[derive(Debug, Clone)]
pub struct StorageConfig {
    /// Path to the database file.
    pub db_path: String,
    /// Maximum database size in megabytes.
    pub max_size_mb: u64,
}

/// Top-level OmniMesh configuration.
#[derive(Debug, Clone)]
pub struct Config {
    /// Node configuration.
    pub node: NodeConfig,
    /// Transport layer configuration.
    pub transport: TransportConfig,
    /// Identity and key storage configuration.
    pub identity: IdentityConfig,
    /// Logging and telemetry configuration.
    pub telemetry: TelemetryConfig,
    /// Persistent storage configuration.
    pub storage: StorageConfig,
}

/// `base` with `part` appended as a further path component.
pub open spec fn spec_join(base: Seq<char>, part: Seq<char>) -> Seq<char> {
    if base.len() == 0 || base.last() == '/' {
        base + part
    } else {
        base + "/"@ + part
    }
}

/// Appends `part` to `base` as a further path component (`part` is relative).
pub fn join_path(base: &str, part: &str) -> (p: String)
    ensures
        p@ == spec_join(base@, part@),
{
    let mut p = base.to_owned();
    let n = base.unicode_len();
    if n == 0 {
        p.append(part);
        return p;
    }
    let last = base.get_char(n - 1);
    if last != '/' {
        p.append("/");
    }
    p.append(part);
    p
}

/// The data directory of `app` for a platform, under `base` (the value of
/// `APPDATA` on Windows, of `HOME` elsewhere, `.` when it is unset).
pub open spec fn spec_dirs_default(platform: Platform, base: Seq<char>, app: Seq<char>) -> Seq<char> {
    match platform {
        Platform::Windows => spec_join(base, app),
        Platform::MacOs => spec_join(spec_join(spec_join(base, "Library"@), "Application Support"@), app),
        Platform::Unix => spec_join(spec_join(spec_join(base, ".local"@), "share"@), app),
    }
}

/// Use the platform-appropriate data directory.
pub fn dirs_default(platform: Platform, base: Option<&str>, app: &str) -> (p: String)
    ensures
        p@ == spec_dirs_default(platform, match base { Some(b) => b@, None => "."@ }, app@),
{
    let root = match base {
        Some(b) => b,
        None => ".",
    };
    match platform {
        Platform::Windows => join_path(root, app),
        Platform::MacOs => {
            let a = join_path(root, "Library");
            let b = join_path(a.as_str(), "Application Support");
            join_path(b.as_str(), app)
        },
        Platform::Unix => {
            let a = join_path(root, ".local");
            let b = join_path(a.as_str(), "share");
            join_path(b.as_str(), app)
        },
    }
}

/// Whether `c` is a lowercase hexadecimal digit.
pub open spec fn is_lower_hex_char(c: char) -> bool {
    ('0' <= c && c <= '9') || ('a' <= c && c <= 'f')
}

/// The hyphenated lowercase text of a version-4 UUID: 36 characters,
/// hyphens at 8, 13, 18 and 23, lowercase hex digits elsewhere, the version
/// digit `4` at 14 and a variant digit from `8` to `b` at 19.
pub open spec fn is_uuid_v4_text(s: Seq<char>) -> bool {
    &&& s.len() == 36
    &&& forall|i: int| 0 <= i < 36 ==> (if i == 8 || i == 13 || i == 18 || i == 23 {
        #[trigger] s[i] == '-'
    } else {
        is_lower_hex_char(s[i])
    })
    &&& s[14] == '4'
    &&& (s[19] == '8' || s[19] == '9' || s[19] == 'a' || s[19] == 'b')
}

/// `uuid::Uuid::new_v4().to_string()`: a random UUID with the version and
/// variant bits set, in its hyphenated lowercase form. Which UUID comes out
/// is left open (it is random).
#[verifier::external_body]
fn uuid_v4_text() -> (s: String)
    ensures
        is_uuid_v4_text(s@),
        s.is_ascii(),
{
    uuid::Uuid::new_v4().to_string()
}

/// A fresh node name: `omnimesh-` followed by the first 8 characters of a
/// random UUID, which are lowercase hex digits.
pub fn default_node_name() -> (s: String)
    ensures
        s@.len() == 17,
        s@.subrange(0, 9) == "omnimesh-"@,
        forall|i: int| 9 <= i < 17 ==> is_lower_hex_char(#[trigger] s@[i]),
{
    let id = uuid_v4_text();
    let head = id.as_str().substring_ascii(0, 8);
    let mut s = "omnimesh-".to_owned();
    proof {
        reveal_strlit("omnimesh-");
    }
    s.append(head);
    assert(s@.subrange(0, 9) =~= "omnimesh-"@);
    assert forall|i: int| 9 <= i < 17 implies is_lower_hex_char(#[trigger] s@[i]) by {
        assert(s@[i] == id@[i - 9]);
        assert(0 <= i - 9 < 36);
    }
    s
}

/// The default data directory.
pub fn default_data_dir(platform: Platform, base: Option<&str>) -> (p: String)
    ensures
        p@ == spec_dirs_default(platform, match base { Some(b) => b@, None => "."@ }, "omnimesh"@),
{
    dirs_default(platform, base, "omnimesh")
}

/// Default maximum number of concurrent connections: 256.
pub fn default_max_connections() -> (n: usize)
    ensures
        n == 256,
{
    256
}

/// Default listen address: `0.0.0.0:4433`.
pub fn default_listen_addr() -> (a: SocketAddress)
    ensures
        a.ip == IpAddress::V4([0u8, 0u8, 0u8, 0u8]),
        a.port == 4433,
{
    SocketAddress::v4([0u8, 0u8, 0u8, 0u8], 4433)
}

/// Default connection timeout: 10 000 ms.
pub fn default_connect_timeout() -> (n: u64)
    ensures
        n == 10_000,
{
    10_000
}

/// Default keep-alive interval: 15 s.
pub fn default_keepalive() -> (n: u64)
    ensures
        n == 15,
{
    15
}

/// Default key path: `identity.key` in the data directory.
pub fn default_key_path(platform: Platform, base: Option<&str>) -> (p: String)
    ensures
        p@ == spec_join(spec_dirs_default(platform, match base { Some(b) => b@, None => "."@ }, "omnimesh"@), "identity.key"@),
{
    let dir = dirs_default(platform, base, "omnimesh");
    join_path(dir.as_str(), "identity.key")
}

/// Default key rotation interval: 720 hours (30 days).
pub fn default_rotation_interval() -> (n: u64)
    ensures
        n == 720,
{
    720
}

/// Default log level: `info`.
pub fn default_log_level() -> (s: String)
    ensures
        s@ == "info"@,
{
    "info".to_owned()
}

/// Default database path: `state.redb` in the data directory.
pub fn default_db_path(platform: Platform, base: Option<&str>) -> (p: String)
    ensures
        p@ == spec_join(spec_dirs_default(platform, match base { Some(b) => b@, None => "."@ }, "omnimesh"@), "state.redb"@),
{
    let dir = dirs_default(platform, base, "omnimesh");
    join_path(dir.as_str(), "state.redb")
}

/// Default maximum database size: 512 MB.
pub fn default_max_db_size() -> (n: u64)
    ensures
        n == 512,
{
    512
}

impl NodeConfig {
    /// The default node settings: a fresh name, the default data directory,
    /// relaying off, 256 connections.
    pub fn default_for(platform: Platform, base: Option<&str>) -> (c: Self)
        ensures
            c.data_dir@ == spec_dirs_default(platform, match base { Some(b) => b@, None => "."@ }, "omnimesh"@),
            c.name@.len() == 17,
            c.name@.subrange(0, 9) == "omnimesh-"@,
            !c.relay_enabled,
            c.max_connections == 256,
    {
        NodeConfig {
            name: default_node_name(),
            data_dir: default_data_dir(platform, base),
            relay_enabled: false,
            max_connections: default_max_connections(),
        }
    }
}

impl TransportConfig {
    /// The default transport settings: listen on `0.0.0.0:4433`, no
    /// bootstrap nodes, 10 s timeout, 15 s keep-alive.
    pub fn default() -> (c: Self)
        ensures
            c.listen_addr.ip == IpAddress::V4([0u8, 0u8, 0u8, 0u8]),
            c.listen_addr.port == 4433,
            c.bootstrap_nodes@.len() == 0,
            c.connect_timeout_ms == 10_000,
            c.keepalive_secs == 15,
    {
        TransportConfig {
            listen_addr: default_listen_addr(),
            bootstrap_nodes: Vec::new(),
            connect_timeout_ms: default_connect_timeout(),
            keepalive_secs: default_keepalive(),
        }
    }
}

impl IdentityConfig {
    /// The default identity settings: the default key path, no rotation,
    /// 720-hour interval.
    pub fn default_for(platform: Platform, base: Option<&str>) -> (c: Self)
        ensures
            c.key_path@ == spec_join(spec_dirs_default(platform, match base { Some(b) => b@, None => "."@ }, "omnimesh"@), "identity.key"@),
            !c.auto_rotate,
            c.rotation_interval_hours == 720,
    {
        IdentityConfig {
            key_path: default_key_path(platform, base),
            auto_rotate: false,
            rotation_interval_hours: default_rotation_interval(),
        }
    }
}

impl TelemetryConfig {
    /// The default telemetry settings: level `info`, plain logs, no metrics.
    pub fn default() -> (c: Self)
        ensures
            c.log_level@ == "info"@,
            !c.json_logs,
            !c.metrics_enabled,
            c.metrics_endpoint is None,
    {
        TelemetryConfig {
            log_level: default_log_level(),
            json_logs: false,
            metrics_enabled: false,
            metrics_endpoint: None,
        }
    }
}

impl StorageConfig {
    /// The default storage settings: the default database path, 512 MB.
    pub fn default_for(platform: Platform, base: Option<&str>) -> (c: Self)
        ensures
            c.db_path@ == spec_join(spec_dirs_default(platform, match base { Some(b) => b@, None => "."@ }, "omnimesh"@), "state.redb"@),
            c.max_size_mb == 512,
    {
        StorageConfig { db_path: default_db_path(platform, base), max_size_mb: default_max_db_size() }
    }
}

impl Config {
    /// The default configuration for a platform and home directory.
    pub fn default_for(platform: Platform, base: Option<&str>) -> (c: Self)
        ensures
            c.node.data_dir@ == spec_dirs_default(platform, match base { Some(b) => b@, None => "."@ }, "omnimesh"@),
            c.node.name@.len() == 17,
            c.node.name@.subrange(0, 9) == "omnimesh-"@,
            !c.node.relay_enabled,
            c.node.max_connections == 256,
            c.transport.listen_addr.ip == IpAddress::V4([0u8, 0u8, 0u8, 0u8]),
            c.transport.listen_addr.port == 4433,
            c.transport.bootstrap_nodes@.len() == 0,
            c.transport.connect_timeout_ms == 10_000,
            c.transport.keepalive_secs == 15,
            c.identity.key_path@ == spec_join(spec_dirs_default(platform, match base { Some(b) => b@, None => "."@ }, "omnimesh"@), "identity.key"@),
            !c.identity.auto_rotate,
            c.identity.rotation_interval_hours == 720,
            c.telemetry.log_level@ == "info"@,
            !c.telemetry.json_logs,
            !c.telemetry.metrics_enabled,
            c.telemetry.metrics_endpoint is None,
            c.storage.db_path@ == spec_join(spec_dirs_default(platform, match base { Some(b) => b@, None => "."@ }, "omnimesh"@), "state.redb"@),
            c.storage.max_size_mb == 512,
    {
        Config {
            node: NodeConfig::default_for(platform, base),
            transport: TransportConfig::default(),
            identity: IdentityConfig::default_for(platform, base),
            telemetry: TelemetryConfig::default(),
            storage: StorageConfig::default_for(platform, base),
        }
    }

    /// Apply overrides (read from `OMNIMESH_NODE_NAME`,
    /// `OMNIMESH_TRANSPORT_LISTEN_ADDR` once parsed, `OMNIMESH_LOG_LEVEL` and
    /// `OMNIMESH_DATA_DIR`): each one present replaces its setting; nothing
    /// else changes.
    pub fn apply_overrides(&mut self, node_name: Option<String>, listen_addr: Option<SocketAddress>, log_level: Option<String>, data_dir: Option<String>)
        ensures
            final(self).node.name == (match node_name { Some(v) => v, None => old(self).node.name }),
            final(self).transport.listen_addr == (match listen_addr { Some(v) => v, None => old(self).transport.listen_addr }),
            final(self).telemetry.log_level == (match log_level { Some(v) => v, None => old(self).telemetry.log_level }),
            final(self).node.data_dir == (match data_dir { Some(v) => v, None => old(self).node.data_dir }),
            final(self).node.relay_enabled == old(self).node.relay_enabled,
            final(self).node.max_connections == old(self).node.max_connections,
            final(self).transport.bootstrap_nodes == old(self).transport.bootstrap_nodes,
            final(self).transport.connect_timeout_ms == old(self).transport.connect_timeout_ms,
            final(self).transport.keepalive_secs == old(self).transport.keepalive_secs,
            final(self).identity == old(self).identity,
            final(self).telemetry.json_logs == old(self).telemetry.json_logs,
            final(self).telemetry.metrics_enabled == old(self).telemetry.metrics_enabled,
            final(self).telemetry.metrics_endpoint == old(self).telemetry.metrics_endpoint,
            final(self).storage == old(self).storage,
    {
        if let Some(v) = node_name {
            self.node.name = v;
        }
        if let Some(a) = listen_addr {
            self.transport.listen_addr = a;
        }
        if let Some(v) = log_level {
            self.telemetry.log_level = v;
        }
        if let Some(v) = data_dir {
            self.node.data_dir = v;
        }
    }
}

} // verus!
