use crate::json::{
    field, field_is_text, fields_of, into_fields, is_text, lemma_without_field, listed, member,
    take_field, take_fields, text_of,
    JsonValue,
};
use crate::models::{
    effective_tag, ApiConfig, ClientEntry, Inbound, InboundConfig, InboundSettings, LogConfig,
    OutboundConfig, RealitySettings, RoutingConfig, SniffingConfig, SockoptConfig,
    StreamSettings, XhttpSettings, XrayConfig,
};
use crate::text::{is_blank, trimmed};
use vstd::prelude::*;
use vstd::string::StringExecFns;

verus! {

/// The lower-case form of a text, character by character as Unicode defines it.
pub uninterp spec fn lower_of(s: Seq<char>) -> Seq<char>;

/// Relies on str::to_lowercase: the lower-case form of the text, which depends on the
/// text alone.
#[verifier::external_body]
fn lowercase(s: &str) -> (r: String)
    ensures
        r@ == lower_of(s@),
{
    s.to_lowercase()
}

/// The address an inbound listens on: its own when given and not blank, else every address.
pub open spec fn listen_of(inb: Inbound) -> Seq<char> {
    match inb.listen {
        Some(l) if trimmed(l@).len() > 0 => l@,
        _ => "0.0.0.0"@,
    }
}

/// The identity of a stored client: its `id`, or else its `password`.
pub open spec fn client_identity(item: JsonValue) -> Option<JsonValue> {
    match member(Some(item), "id"@) {
        Some(v) => Some(v),
        None => member(Some(item), "password"@),
    }
}

/// A configured client carries the identity and the email of the stored one.
pub open spec fn client_ok(out: ClientEntry, item: JsonValue) -> bool {
    out.id == client_identity(item) && out.email == member(Some(item), "email"@)
}

/// The clients listed in stored settings; none when there is no `clients` array.
pub open spec fn stored_clients(settings: Option<JsonValue>) -> Seq<JsonValue> {
    match member(settings, "clients"@) {
        Some(JsonValue::Array(items)) => items@,
        _ => Seq::empty(),
    }
}

/// Sniffing switched on, with destinations overridden for TLS and HTTP.
pub open spec fn forced_sniffing(s: SniffingConfig) -> bool {
    &&& s.enabled
    &&& s.dest_override@.len() == 2
    &&& s.dest_override@[0]@ == "tls"@
    &&& s.dest_override@[1]@ == "http"@
}

/// The settings of a configured inbound, derived from the stored ones.
pub open spec fn settings_ok(out: InboundSettings, stored: Option<JsonValue>) -> bool {
    &&& out.clients@.len() == stored_clients(stored).len()
    &&& forall|j: int|
        0 <= j < out.clients@.len() ==> client_ok(#[trigger] out.clients@[j], stored_clients(stored)[j])
    &&& out.decryption@ == "none"@
    &&& forced_sniffing(out.sniffing)
}

fn convert_client(item: JsonValue) -> (r: ClientEntry)
    ensures
        client_ok(r, item),
{
    let ghost fs0 = fields_of(Some(item));
    let mut fs = into_fields(Some(item));
    let id = take_field(&mut fs, "id");
    proof {
        reveal_strlit("id");
        reveal_strlit("password");
        reveal_strlit("email");
        assert("id"@.len() == 2 && "password"@.len() == 8 && "email"@.len() == 5);
        lemma_without_field(fs0, "id"@, "password"@);
        lemma_without_field(fs0, "id"@, "email"@);
    }
    let ghost fs1 = fs@;
    let password = take_field(&mut fs, "password");
    proof {
        lemma_without_field(fs1, "password"@, "email"@);
    }
    let email = take_field(&mut fs, "email");
    let identity = match id {
        Some(v) => Some(v),
        None => password,
    };
    ClientEntry { id: identity, email }
}

fn forced_sniffing_config() -> (r: SniffingConfig)
    ensures
        forced_sniffing(r),
{
    let mut targets: Vec<String> = Vec::new();
    targets.push(String::from_str("tls"));
    targets.push(String::from_str("http"));
    SniffingConfig { enabled: true, dest_override: targets }
}

/// The settings of a configured inbound: the stored clients by identity and email, no
/// decryption, and sniffing forced on.
pub fn build_settings(stored: Option<JsonValue>) -> (r: InboundSettings)
    ensures
        settings_ok(r, stored),
{
    let ghost items0 = stored_clients(stored);
    let mut fs = into_fields(stored);
    let clients_value = take_field(&mut fs, "clients");
    let mut items = match clients_value {
        Some(JsonValue::Array(items)) => items,
        _ => Vec::new(),
    };
    assert(items@ == items0);
    let mut clients: Vec<ClientEntry> = Vec::new();
    while items.len() > 0
        invariant
            clients@.len() + items@.len() == items0.len(),
            items@ == items0.subrange(clients@.len() as int, items0.len() as int),
            forall|j: int| 0 <= j < clients@.len() ==> client_ok(#[trigger] clients@[j], items0[j]),
        decreases items@.len(),
    {
        let item = items.remove(0);
        let c = convert_client(item);
        clients.push(c);
        assert(items@ =~= items0.subrange(clients@.len() as int, items0.len() as int));
    }
    InboundSettings {
        clients,
        decryption: String::from_str("none"),
        sniffing: forced_sniffing_config(),
    }
}

} // verus!

verus! {

/// The transports the proxy engine accepts.
pub open spec fn supported_network(t: Seq<char>) -> bool {
    t == "tcp"@ || t == "kcp"@ || t == "ws"@ || t == "http"@ || t == "grpc"@ || t == "quic"@ || t
        == "httpupgrade"@
}

/// The HTTP transport modes the proxy engine accepts.
pub open spec fn supported_mode(t: Seq<char>) -> bool {
    t == "auto"@ || t == "packet-up"@ || t == "stream-up"@ || t == "stream-one"@
}

/// An absent value stays absent, a supported name is kept, and anything else becomes
/// the text `fallback`.
pub open spec fn coerced(
    out: Option<JsonValue>,
    stored: Option<JsonValue>,
    supported: spec_fn(Seq<char>) -> bool,
    fallback: Seq<char>,
) -> bool {
    match stored {
        None => out is None,
        Some(_) => match text_of(stored) {
            Some(t) => if supported(t) {
                out == stored
            } else {
                text_of(out) == Some(fallback)
            },
            None => text_of(out) == Some(fallback),
        },
    }
}

/// A list given in its plural field is kept; else a string in the singular field becomes
/// a one-element list; else the list is empty.
pub open spec fn name_list_ok(
    out: JsonValue,
    plural: Option<JsonValue>,
    singular: Option<JsonValue>,
) -> bool {
    match plural {
        Some(p) => out == p,
        None => match singular {
            Some(JsonValue::Str(x)) => out matches JsonValue::Array(v) && v@ == seq![
                JsonValue::Str(x),
            ],
            _ => out matches JsonValue::Array(v) && v@.len() == 0,
        },
    }
}

/// Reality settings rebuilt from the allowed fields of the stored ones.
pub open spec fn reality_ok(out: RealitySettings, stored: Option<JsonValue>) -> bool {
    &&& out.dest == member(stored, "dest"@)
    &&& out.private_key == member(stored, "privateKey"@)
    &&& out.public_key == member(stored, "publicKey"@)
    &&& out.fingerprint == member(stored, "fingerprint"@)
    &&& name_list_ok(out.server_names, member(stored, "serverNames"@), member(stored, "serverName"@))
    &&& name_list_ok(out.short_ids, member(stored, "shortIds"@), member(stored, "shortId"@))
}

/// HTTP transport settings rebuilt from the allowed fields of the stored ones.
pub open spec fn xhttp_ok(out: XhttpSettings, stored: Option<JsonValue>) -> bool {
    &&& coerced(out.mode, member(stored, "mode"@), |t: Seq<char>| supported_mode(t), "auto"@)
    &&& out.path == member(stored, "path"@)
    &&& out.host == member(stored, "host"@)
}

/// Fast open and no delay on, proxy protocol off.
pub open spec fn sockopt_policy(s: SockoptConfig) -> bool {
    s.tcp_fast_open && s.tcp_no_delay && !s.accept_proxy_protocol
}

/// The stored transport settings ask for reality security.
pub open spec fn is_reality(stored: Option<JsonValue>) -> bool {
    text_of(member(stored, "security"@)) == Some("reality"@)
}

/// The stored fields that the configured transport settings replace.
pub open spec fn replaced_key(k: Seq<char>, reality: bool) -> bool {
    k == "network"@ || k == "sockopt"@ || k == "xhttpSettings"@ || (reality && k
        == "realitySettings"@)
}

/// The transport settings of a configured inbound, derived from the stored ones.
pub open spec fn stream_ok(out: StreamSettings, stored: Option<JsonValue>) -> bool {
    &&& coerced(
        out.network,
        member(stored, "network"@),
        |t: Seq<char>| supported_network(t),
        "tcp"@,
    )
    &&& sockopt_policy(out.sockopt)
    &&& if is_reality(stored) {
        out.reality_settings matches Some(r) && reality_ok(r, member(stored, "realitySettings"@))
    } else {
        out.reality_settings is None
    }
    &&& match member(stored, "xhttpSettings"@) {
        Some(x) => out.xhttp_settings matches Some(h) && xhttp_ok(h, Some(x)),
        None => out.xhttp_settings is None,
    }
    &&& forall|k: Seq<char>|
        #[trigger] field(out.extra@, k) == if replaced_key(k, is_reality(stored)) {
            None
        } else {
            member(stored, k)
        }
}

fn pop_value(vals: &mut Vec<Option<JsonValue>>) -> (v: Option<JsonValue>)
    requires
        old(vals)@.len() > 0,
    ensures
        v == old(vals)@.last(),
        final(vals)@ == old(vals)@.drop_last(),
{
    match vals.pop() {
        Some(v) => v,
        None => None,
    }
}

fn normalize_network(v: Option<JsonValue>) -> (r: Option<JsonValue>)
    ensures
        coerced(r, v, |t: Seq<char>| supported_network(t), "tcp"@),
{
    match v {
        None => None,
        Some(x) => {
            if is_text(&x, "tcp") || is_text(&x, "kcp") || is_text(&x, "ws") || is_text(&x, "http")
                || is_text(&x, "grpc") || is_text(&x, "quic") || is_text(&x, "httpupgrade") {
                Some(x)
            } else {
                Some(JsonValue::Str(String::from_str("tcp")))
            }
        },
    }
}

fn normalize_mode(v: Option<JsonValue>) -> (r: Option<JsonValue>)
    ensures
        coerced(r, v, |t: Seq<char>| supported_mode(t), "auto"@),
{
    match v {
        None => None,
        Some(x) => {
            if is_text(&x, "auto") || is_text(&x, "packet-up") || is_text(&x, "stream-up")
                || is_text(&x, "stream-one") {
                Some(x)
            } else {
                Some(JsonValue::Str(String::from_str("auto")))
            }
        },
    }
}

fn name_list(plural: Option<JsonValue>, singular: Option<JsonValue>) -> (r: JsonValue)
    ensures
        name_list_ok(r, plural, singular),
{
    match plural {
        Some(p) => p,
        None => match singular {
            Some(JsonValue::Str(x)) => {
                let mut v: Vec<JsonValue> = Vec::new();
                v.push(JsonValue::Str(x));
                JsonValue::Array(v)
            },
            _ => JsonValue::Array(Vec::new()),
        },
    }
}

/// Reality settings rebuilt from an allow-list of the stored fields, with a singular
/// server name or short id turned into a list.
pub fn build_reality_settings(stored: Option<JsonValue>) -> (r: RealitySettings)
    ensures
        reality_ok(r, stored),
{
    let mut fs = into_fields(stored);
    let keys = vec![
        "dest",
        "privateKey",
        "publicKey",
        "fingerprint",
        "serverNames",
        "serverName",
        "shortIds",
        "shortId",
    ];
    proof {
        reveal_strlit("dest");
        reveal_strlit("privateKey");
        reveal_strlit("publicKey");
        reveal_strlit("fingerprint");
        reveal_strlit("serverNames");
        reveal_strlit("serverName");
        reveal_strlit("shortIds");
        reveal_strlit("shortId");
        assert("dest"@.len() == 4);
        assert("privateKey"@.len() == 10 && "privateKey"@[0] == 'p');
        assert("publicKey"@.len() == 9);
        assert("fingerprint"@.len() == 11 && "fingerprint"@[0] == 'f');
        assert("serverNames"@.len() == 11 && "serverNames"@[0] == 's');
        assert("serverName"@.len() == 10 && "serverName"@[0] == 's');
        assert("shortIds"@.len() == 8);
        assert("shortId"@.len() == 7);
    }
    let mut vals = take_fields(&mut fs, &keys);
    let short_id = pop_value(&mut vals);
    let short_ids = pop_value(&mut vals);
    let server_name = pop_value(&mut vals);
    let server_names = pop_value(&mut vals);
    let fingerprint = pop_value(&mut vals);
    let public_key = pop_value(&mut vals);
    let private_key = pop_value(&mut vals);
    let dest = pop_value(&mut vals);
    RealitySettings {
        dest,
        private_key,
        public_key,
        fingerprint,
        server_names: name_list(server_names, server_name),
        short_ids: name_list(short_ids, short_id),
    }
}

/// HTTP transport settings rebuilt from an allow-list of the stored fields, with an
/// unsupported mode replaced by `auto`.
pub fn build_xhttp_settings(stored: Option<JsonValue>) -> (r: XhttpSettings)
    ensures
        xhttp_ok(r, stored),
{
    let mut fs = into_fields(stored);
    let keys = vec!["mode", "path", "host"];
    proof {
        reveal_strlit("mode");
        reveal_strlit("path");
        reveal_strlit("host");
        assert("mode"@[0] == 'm' && "path"@[0] == 'p' && "host"@[0] == 'h');
    }
    let mut vals = take_fields(&mut fs, &keys);
    let host = pop_value(&mut vals);
    let path = pop_value(&mut vals);
    let mode = pop_value(&mut vals);
    XhttpSettings { mode: normalize_mode(mode), path, host }
}

/// The transport settings of a configured inbound: the stored ones, with the network
/// coerced to a supported one, reality and HTTP transport settings rebuilt from their
/// allow-lists, and the socket options forced.
pub fn build_stream_settings(stored: Option<JsonValue>) -> (r: StreamSettings)
    ensures
        stream_ok(r, stored),
{
    let mut fs = into_fields(stored);
    let reality = field_is_text(&fs, "security", "reality");
    proof {
        reveal_strlit("network");
        reveal_strlit("sockopt");
        reveal_strlit("xhttpSettings");
        reveal_strlit("realitySettings");
        assert("network"@.len() == 7 && "network"@[0] == 'n');
        assert("sockopt"@.len() == 7 && "sockopt"@[0] == 's');
        assert("xhttpSettings"@.len() == 13);
        assert("realitySettings"@.len() == 15);
    }
    let keys = if reality {
        vec!["network", "sockopt", "xhttpSettings", "realitySettings"]
    } else {
        vec!["network", "sockopt", "xhttpSettings"]
    };
    let mut vals = take_fields(&mut fs, &keys);
    proof {
        assert forall|k: Seq<char>| listed(keys@, k) == replaced_key(k, reality) by {
            if k == "network"@ {
                assert(keys@[0]@ == k);
            }
            if k == "sockopt"@ {
                assert(keys@[1]@ == k);
            }
            if k == "xhttpSettings"@ {
                assert(keys@[2]@ == k);
            }
            if reality && k == "realitySettings"@ {
                assert(keys@[3]@ == k);
            }
        }
    }
    let reality_settings = if reality {
        let rv = pop_value(&mut vals);
        Some(build_reality_settings(rv))
    } else {
        None
    };
    let xhttp = pop_value(&mut vals);
    let _sockopt = pop_value(&mut vals);
    let network = pop_value(&mut vals);
    let xhttp_settings = match xhttp {
        Some(x) => Some(build_xhttp_settings(Some(x))),
        None => None,
    };
    StreamSettings {
        network: normalize_network(network),
        reality_settings,
        xhttp_settings,
        sockopt: SockoptConfig { tcp_fast_open: true, tcp_no_delay: true, accept_proxy_protocol: false },
        extra: fs,
    }
}

} // verus!

verus! {

/// A configured inbound derived from a stored one, its protocol name lower-cased.
pub open spec fn entry_ok(e: InboundConfig, inb: Inbound) -> bool {
    entry_with(e, inb, lower_of(inb.protocol@))
}

/// A configured inbound derived from a stored one, with the protocol name `protocol`.
pub open spec fn entry_with(e: InboundConfig, inb: Inbound, protocol: Seq<char>) -> bool {
    &&& e.tag@ == effective_tag(inb)
    &&& e.port == inb.port
    &&& e.protocol@ == protocol
    &&& (e.listen matches Some(l) && l@ == listen_of(inb))
    &&& e.allocate == inb.allocate
    &&& e.sniffing is None
    &&& (e.settings matches Some(s) && settings_ok(s, inb.settings))
    &&& (e.stream_settings matches Some(ss) && stream_ok(ss, inb.stream_settings))
}

/// The enabled inbounds of a store, in order.
pub open spec fn enabled_of(store: Seq<Inbound>) -> Seq<Inbound>
    decreases store.len(),
{
    if store.len() == 0 {
        store
    } else if store[0].enable {
        seq![store[0]] + enabled_of(store.drop_first())
    } else {
        enabled_of(store.drop_first())
    }
}

/// A direct outbound, then a blocking one, neither with settings.
pub open spec fn fixed_outbounds(o: Seq<OutboundConfig>) -> bool {
    &&& o.len() == 2
    &&& o[0].tag@ == "direct"@ && o[0].protocol@ == "freedom"@
    &&& o[1].tag@ == "blocked"@ && o[1].protocol@ == "blackhole"@
    &&& o[0].settings is None && o[0].stream_settings is None
    &&& o[1].settings is None && o[1].stream_settings is None
}

/// The configuration synthesized from a store snapshot and the two log paths.
pub open spec fn config_ok(
    c: XrayConfig,
    store: Seq<Inbound>,
    access: Option<String>,
    error: Option<String>,
) -> bool {
    &&& c.log.loglevel@ == "error"@
    &&& c.log.access == access
    &&& c.log.error == error
    &&& c.api.tag@.len() == 0 && c.api.services@.len() == 0
    &&& c.dns is None && c.stats is None && c.policy is None
    &&& c.inbounds@.len() == enabled_of(store).len()
    &&& forall|j: int|
        0 <= j < c.inbounds@.len() ==> entry_ok(#[trigger] c.inbounds@[j], enabled_of(store)[j])
    &&& fixed_outbounds(c.outbounds@)
    &&& (c.routing matches Some(r) && r.domain_strategy@ == "IPIfNonMatch"@ && r.rules@.len() == 0)
}

/// The configured inbound for one stored inbound, its protocol name lower-cased.
pub fn build_inbound_config(inb: Inbound) -> (r: InboundConfig)
    ensures
        entry_ok(r, inb),
{
    let protocol = lowercase(inb.protocol.as_str());
    inbound_config_with_protocol(inb, protocol)
}

/// The configured inbound for one stored inbound, given its protocol name as configured.
pub fn inbound_config_with_protocol(inb: Inbound, protocol: String) -> (r: InboundConfig)
    ensures
        entry_with(r, inb, protocol@),
{
    let tag = inb.effective_tag();
    let listen = match &inb.listen {
        Some(l) => {
            if is_blank(l.as_str()) {
                String::from_str("0.0.0.0")
            } else {
                l.clone()
            }
        },
        None => String::from_str("0.0.0.0"),
    };
    let port = inb.port;
    let Inbound { settings, stream_settings, allocate, .. } = inb;
    InboundConfig {
        tag,
        port,
        protocol,
        listen: Some(listen),
        allocate,
        settings: Some(build_settings(settings)),
        stream_settings: Some(build_stream_settings(stream_settings)),
        sniffing: None,
    }
}

fn outbound(tag: &str, protocol: &str) -> (r: OutboundConfig)
    ensures
        r.tag@ == tag@,
        r.protocol@ == protocol@,
        r.settings is None,
        r.stream_settings is None,
{
    OutboundConfig {
        tag: String::from_str(tag),
        protocol: String::from_str(protocol),
        settings: None,
        stream_settings: None,
    }
}

/// The proxy configuration for a store snapshot: one listener for each enabled inbound,
/// in order, a direct and a blocking outbound, and routing without rules.
pub fn synthesize_config(store: Vec<Inbound>, access_log: Option<String>, error_log: Option<String>) -> (r:
    XrayConfig)
    ensures
        config_ok(r, store@, access_log, error_log),
{
    let ghost orig = store@;
    let mut rest = store;
    let mut inbounds: Vec<InboundConfig> = Vec::new();
    let ghost mut done: Seq<Inbound> = Seq::empty();
    while rest.len() > 0
        invariant
            enabled_of(orig) == done + enabled_of(rest@),
            inbounds@.len() == done.len(),
            forall|j: int| 0 <= j < done.len() ==> entry_ok(#[trigger] inbounds@[j], done[j]),
        decreases rest@.len(),
    {
        let ghost before = rest@;
        let inb = rest.remove(0);
        assert(before.drop_first() =~= rest@);
        if inb.enable {
            proof {
                assert(enabled_of(before) == seq![inb] + enabled_of(rest@));
                assert(done + enabled_of(before) =~= done.push(inb) + enabled_of(rest@));
                done = done.push(inb);
            }
            let e = build_inbound_config(inb);
            inbounds.push(e);
        }
    }
    assert(done + enabled_of(rest@) =~= done);
    let mut outbounds: Vec<OutboundConfig> = Vec::new();
    outbounds.push(outbound("direct", "freedom"));
    outbounds.push(outbound("blocked", "blackhole"));
    let log = LogConfig { access: access_log, error: error_log, loglevel: String::from_str("error") };
    XrayConfig {
        log,
        api: ApiConfig::default(),
        dns: None,
        stats: None,
        policy: None,
        inbounds,
        outbounds,
        routing: Some(RoutingConfig { domain_strategy: String::from_str("IPIfNonMatch"), rules: Vec::new() }),
    }
}

} // verus!
