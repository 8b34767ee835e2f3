use crate::json::JsonValue;
use vstd::prelude::*;
use vstd::string::StringExecFns;

verus! {

/// A stored proxy listener with its quota and cumulative usage.
pub struct Inbound {
    pub id: String,
    pub tag: Option<String>,
    pub protocol: String,
    pub port: i32,
    pub listen: Option<String>,
    pub enable: bool,
    pub settings: Option<JsonValue>,
    pub stream_settings: Option<JsonValue>,
    pub sniffing: Option<JsonValue>,
    pub allocate: Option<JsonValue>,
    /// Quota in bytes; zero means unlimited.
    pub total: i64,
    pub up: i64,
    pub down: i64,
}

/// The tag of an inbound: its own when present and not empty, else `inbound-<id>`.
pub open spec fn effective_tag(inb: Inbound) -> Seq<char> {
    match inb.tag {
        Some(t) if t@.len() > 0 => t@,
        _ => "inbound-"@ + inb.id@,
    }
}

impl Inbound {
    /// The tag under which this inbound is counted and configured.
    pub fn effective_tag(&self) -> (r: String)
        ensures
            r@ == effective_tag(*self),
    {
        match &self.tag {
            Some(t) => {
                if !t.as_str().is_empty() {
                    return t.clone();
                }
            },
            None => {},
        }
        let prefix = String::from_str("inbound-");
        prefix.concat(self.id.as_str())
    }
}

/// Logging section of the proxy configuration.
pub struct LogConfig {
    pub access: Option<String>,
    pub error: Option<String>,
    pub loglevel: String,
}

impl Default for LogConfig {
    fn default() -> (r: Self)
        ensures
            r.access is None,
            r.error is None,
            r.loglevel@ == "warning"@,
    {
        LogConfig { access: None, error: None, loglevel: String::from_str("warning") }
    }
}

/// Administrative API section of the proxy configuration.
pub struct ApiConfig {
    pub tag: String,
    pub services: Vec<String>,
}

impl Default for ApiConfig {
    fn default() -> (r: Self)
        ensures
            r.tag@ == Seq::<char>::empty(),
            r.services@.len() == 0,
    {
        ApiConfig { tag: String::new(), services: Vec::new() }
    }
}

/// Name-server section of the proxy configuration.
pub struct DnsConfig {
    pub servers: Vec<String>,
}

/// Statistics section of the proxy configuration.
pub struct StatsConfig {}

/// Per-level policy of the proxy engine.
pub struct LevelPolicy {
    pub stats_user_uplink: bool,
    pub stats_user_downlink: bool,
    pub handshake: u32,
    pub conn_idle: u32,
    pub uplink_only: u32,
    pub downlink_only: u32,
    pub buffer_size: u32,
}

/// System-wide policy of the proxy engine.
pub struct SystemPolicy {
    pub stats_inbound_uplink: bool,
    pub stats_inbound_downlink: bool,
    pub stats_outbound_uplink: bool,
    pub stats_outbound_downlink: bool,
}

/// Policy section of the proxy configuration, levels keyed by name.
pub struct PolicyConfig {
    pub levels: Vec<(String, LevelPolicy)>,
    pub system: Option<SystemPolicy>,
}

/// One client of an inbound: its identity and, if given, its email.
pub struct ClientEntry {
    pub id: Option<JsonValue>,
    pub email: Option<JsonValue>,
}

/// Traffic sniffing policy of an inbound.
pub struct SniffingConfig {
    pub enabled: bool,
    pub dest_override: Vec<String>,
}

/// The protocol settings of a configured inbound.
pub struct InboundSettings {
    pub clients: Vec<ClientEntry>,
    pub decryption: String,
    pub sniffing: SniffingConfig,
}

/// Socket options of a configured inbound.
pub struct SockoptConfig {
    pub tcp_fast_open: bool,
    pub tcp_no_delay: bool,
    pub accept_proxy_protocol: bool,
}

/// TLS-camouflage settings, limited to the fields the engine accepts.
pub struct RealitySettings {
    pub dest: Option<JsonValue>,
    pub private_key: Option<JsonValue>,
    pub public_key: Option<JsonValue>,
    pub fingerprint: Option<JsonValue>,
    pub server_names: JsonValue,
    pub short_ids: JsonValue,
}

/// HTTP transport settings, limited to the fields the engine accepts.
pub struct XhttpSettings {
    pub mode: Option<JsonValue>,
    pub path: Option<JsonValue>,
    pub host: Option<JsonValue>,
}

/// The transport settings of a configured inbound: the stored fields in `extra`,
/// and the ones that were rebuilt or forced in their own places.
pub struct StreamSettings {
    pub network: Option<JsonValue>,
    pub reality_settings: Option<RealitySettings>,
    pub xhttp_settings: Option<XhttpSettings>,
    pub sockopt: SockoptConfig,
    pub extra: Vec<(String, JsonValue)>,
}

/// One listener of the proxy configuration.
pub struct InboundConfig {
    pub tag: String,
    pub port: i32,
    pub protocol: String,
    pub listen: Option<String>,
    pub allocate: Option<JsonValue>,
    pub settings: Option<InboundSettings>,
    pub stream_settings: Option<StreamSettings>,
    pub sniffing: Option<JsonValue>,
}

/// One outbound of the proxy configuration.
pub struct OutboundConfig {
    pub tag: String,
    pub protocol: String,
    pub settings: Option<JsonValue>,
    pub stream_settings: Option<JsonValue>,
}

/// One routing rule of the proxy configuration.
pub struct RoutingRule {
    pub rule_type: String,
    pub port: Option<String>,
    pub inbound_tag: Option<Vec<String>>,
    pub outbound_tag: Option<String>,
    pub ip: Option<Vec<String>>,
    pub domain: Option<Vec<String>>,
    pub protocol: Option<Vec<String>>,
}

impl Default for RoutingRule {
    fn default() -> (r: Self)
        ensures
            r.rule_type@ == "field"@,
            r.port is None,
            r.inbound_tag is None,
            r.outbound_tag is None,
            r.ip is None,
            r.domain is None,
            r.protocol is None,
    {
        RoutingRule {
            rule_type: String::from_str("field"),
            port: None,
            inbound_tag: None,
            outbound_tag: None,
            ip: None,
            domain: None,
            protocol: None,
        }
    }
}

/// Routing section of the proxy configuration.
pub struct RoutingConfig {
    pub domain_strategy: String,
    pub rules: Vec<RoutingRule>,
}

/// The whole proxy configuration document.
pub struct XrayConfig {
    pub log: LogConfig,
    pub api: ApiConfig,
    pub dns: Option<DnsConfig>,
    pub stats: Option<StatsConfig>,
    pub policy: Option<PolicyConfig>,
    pub inbounds: Vec<InboundConfig>,
    pub outbounds: Vec<OutboundConfig>,
    pub routing: Option<RoutingConfig>,
}

} // verus!
