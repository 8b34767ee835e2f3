use xray_panel::json::JsonValue;
use xray_panel::models::{Inbound, InboundConfig};
use xray_panel::synth::{
    build_reality_settings, build_settings, build_stream_settings, build_xhttp_settings,
    inbound_config_with_protocol, synthesize_config,
};

fn s(t: &str) -> JsonValue {
    JsonValue::Str(t.to_string())
}

fn obj(fields: Vec<(&str, JsonValue)>) -> JsonValue {
    JsonValue::Object(fields.into_iter().map(|(k, v)| (k.to_string(), v)).collect())
}

fn text(v: &Option<JsonValue>) -> Option<String> {
    match v {
        Some(JsonValue::Str(t)) => Some(t.clone()),
        _ => None,
    }
}

fn texts(v: &JsonValue) -> Vec<String> {
    match v {
        JsonValue::Array(items) => items
            .iter()
            .map(|i| match i {
                JsonValue::Str(t) => t.clone(),
                _ => panic!("not a string"),
            })
            .collect(),
        _ => panic!("not an array"),
    }
}

fn field<'a>(fs: &'a [(String, JsonValue)], key: &str) -> Option<&'a JsonValue> {
    fs.iter().find(|(k, _)| k == key).map(|(_, v)| v)
}

fn stored(id: &str, tag: &str, enable: bool) -> Inbound {
    Inbound {
        id: id.to_string(),
        tag: Some(tag.to_string()),
        protocol: "VLESS".to_string(),
        port: 443,
        listen: Some(String::new()),
        enable,
        settings: Some(obj(vec![(
            "clients",
            JsonValue::Array(vec![
                obj(vec![("id", s("uuid-1")), ("email", s("a@x")), ("flow", s("xtls"))]),
                obj(vec![("password", s("pw-2"))]),
            ]),
        )])),
        stream_settings: Some(obj(vec![
            ("network", s("xhttp")),
            ("security", s("reality")),
            (
                "realitySettings",
                obj(vec![
                    ("dest", s("example.com:443")),
                    ("serverName", s("example.com")),
                    ("show", JsonValue::Bool(true)),
                ]),
            ),
            ("sockopt", obj(vec![("tcpFastOpen", JsonValue::Bool(false))])),
            ("tlsSettings", obj(vec![])),
        ])),
        sniffing: Some(obj(vec![("enabled", JsonValue::Bool(false))])),
        allocate: None,
        total: 0,
        up: 0,
        down: 0,
    }
}

#[test]
fn singular_server_name_becomes_list() {
    let r = build_reality_settings(Some(obj(vec![("serverName", s("example.com"))])));
    assert_eq!(texts(&r.server_names), vec!["example.com".to_string()]);
    assert_eq!(texts(&r.short_ids), Vec::<String>::new());
}

#[test]
fn missing_server_names_become_empty_list() {
    let r = build_reality_settings(Some(obj(vec![("dest", s("a.com:443"))])));
    assert_eq!(texts(&r.server_names), Vec::<String>::new());
    assert_eq!(text(&r.dest), Some("a.com:443".to_string()));
}

#[test]
fn plural_server_names_are_kept() {
    let r = build_reality_settings(Some(obj(vec![
        ("serverNames", JsonValue::Array(vec![s("a.com"), s("b.com")])),
        ("serverName", s("c.com")),
        ("shortId", s("ab12")),
    ])));
    assert_eq!(texts(&r.server_names), vec!["a.com".to_string(), "b.com".to_string()]);
    assert_eq!(texts(&r.short_ids), vec!["ab12".to_string()]);
}

#[test]
fn xhttp_network_becomes_tcp() {
    let r = build_stream_settings(Some(obj(vec![("network", s("xhttp"))])));
    assert_eq!(text(&r.network), Some("tcp".to_string()));
}

#[test]
fn supported_network_is_kept() {
    let r = build_stream_settings(Some(obj(vec![("network", s("ws"))])));
    assert_eq!(text(&r.network), Some("ws".to_string()));
    let none = build_stream_settings(None);
    assert!(none.network.is_none());
}

#[test]
fn sockopt_is_forced_and_others_kept() {
    let r = build_stream_settings(Some(obj(vec![
        ("sockopt", obj(vec![("tcpFastOpen", JsonValue::Bool(false))])),
        ("wsSettings", obj(vec![("path", s("/ws"))])),
    ])));
    assert!(r.sockopt.tcp_fast_open && r.sockopt.tcp_no_delay && !r.sockopt.accept_proxy_protocol);
    assert!(field(&r.extra, "sockopt").is_none());
    assert!(field(&r.extra, "wsSettings").is_some());
    assert!(r.reality_settings.is_none());
}

#[test]
fn reality_settings_rebuilt_only_for_reality_security() {
    let reality = build_stream_settings(Some(obj(vec![
        ("security", s("reality")),
        ("realitySettings", obj(vec![("privateKey", s("k")), ("show", JsonValue::Bool(true))])),
    ])));
    let r = reality.reality_settings.unwrap();
    assert_eq!(text(&r.private_key), Some("k".to_string()));
    assert!(field(&reality.extra, "realitySettings").is_none());
    assert!(field(&reality.extra, "security").is_some());

    let tls = build_stream_settings(Some(obj(vec![
        ("security", s("tls")),
        ("realitySettings", obj(vec![("privateKey", s("k"))])),
    ])));
    assert!(tls.reality_settings.is_none());
    assert!(field(&tls.extra, "realitySettings").is_some());
}

#[test]
fn xhttp_settings_keep_allowed_fields_and_fix_mode() {
    let x = build_xhttp_settings(Some(obj(vec![
        ("mode", s("turbo")),
        ("path", s("/x")),
        ("extra", s("dropped")),
    ])));
    assert_eq!(text(&x.mode), Some("auto".to_string()));
    assert_eq!(text(&x.path), Some("/x".to_string()));
    assert!(x.host.is_none());
    let kept = build_xhttp_settings(Some(obj(vec![("mode", s("packet-up"))])));
    assert_eq!(text(&kept.mode), Some("packet-up".to_string()));
}

#[test]
fn settings_keep_client_identity_and_force_sniffing() {
    let st = build_settings(stored("1", "n1", true).settings);
    assert_eq!(st.clients.len(), 2);
    assert_eq!(text(&st.clients[0].id), Some("uuid-1".to_string()));
    assert_eq!(text(&st.clients[0].email), Some("a@x".to_string()));
    assert_eq!(text(&st.clients[1].id), Some("pw-2".to_string()));
    assert!(st.clients[1].email.is_none());
    assert_eq!(st.decryption, "none");
    assert!(st.sniffing.enabled);
    assert_eq!(st.sniffing.dest_override, vec!["tls".to_string(), "http".to_string()]);
    let empty = build_settings(None);
    assert!(empty.clients.is_empty());
}

#[test]
fn protocol_is_lower_cased() {
    let mut inb = stored("1", "n1", true);
    inb.protocol = "VLess-Ä".to_string();
    let c = synthesize_config(vec![inb], None, None);
    assert_eq!(c.inbounds[0].protocol, "vless-ä");
}

#[test]
fn configured_protocol_is_taken_as_given() {
    let e = inbound_config_with_protocol(stored("1", "n1", true), "trojan".to_string());
    assert_eq!(e.protocol, "trojan");
    assert_eq!(e.tag, "n1");
    assert_eq!(e.listen, Some("0.0.0.0".to_string()));
}

fn summary(c: &InboundConfig) -> (String, i32, String, Option<String>) {
    (c.tag.clone(), c.port, c.protocol.clone(), c.listen.clone())
}

#[test]
fn config_lists_enabled_inbounds_in_order() {
    let store = vec![stored("1", "n1", true), stored("2", "n2", false), stored("3", "n3", true)];
    let c = synthesize_config(store, Some("/l/access.log".to_string()), None);
    assert_eq!(c.inbounds.len(), 2);
    assert_eq!(
        summary(&c.inbounds[0]),
        ("n1".to_string(), 443, "vless".to_string(), Some("0.0.0.0".to_string()))
    );
    assert_eq!(c.inbounds[1].tag, "n3");
    assert!(c.inbounds[0].sniffing.is_none());
    let ss = c.inbounds[0].stream_settings.as_ref().unwrap();
    assert_eq!(text(&ss.network), Some("tcp".to_string()));
    let r = ss.reality_settings.as_ref().unwrap();
    assert_eq!(texts(&r.server_names), vec!["example.com".to_string()]);
    assert_eq!(c.outbounds.len(), 2);
    assert_eq!((c.outbounds[0].tag.as_str(), c.outbounds[0].protocol.as_str()), ("direct", "freedom"));
    assert_eq!((c.outbounds[1].tag.as_str(), c.outbounds[1].protocol.as_str()), ("blocked", "blackhole"));
    let routing = c.routing.unwrap();
    assert_eq!(routing.domain_strategy, "IPIfNonMatch");
    assert!(routing.rules.is_empty());
    assert_eq!(c.log.loglevel, "error");
    assert_eq!(c.log.access, Some("/l/access.log".to_string()));
}

#[test]
fn synthesis_is_deterministic() {
    let a = synthesize_config(vec![stored("1", "n1", true), stored("2", "n2", true)], None, None);
    let b = synthesize_config(vec![stored("1", "n1", true), stored("2", "n2", true)], None, None);
    assert_eq!(a.inbounds.len(), b.inbounds.len());
    for (x, y) in a.inbounds.iter().zip(b.inbounds.iter()) {
        assert_eq!(summary(x), summary(y));
        let (sx, sy) = (x.stream_settings.as_ref().unwrap(), y.stream_settings.as_ref().unwrap());
        assert_eq!(format!("{:?}", sx.extra), format!("{:?}", sy.extra));
        assert_eq!(text(&sx.network), text(&sy.network));
        let (cx, cy) = (x.settings.as_ref().unwrap(), y.settings.as_ref().unwrap());
        assert_eq!(cx.clients.len(), cy.clients.len());
    }
}

#[test]
fn disabled_inbound_is_absent_from_config() {
    let mut inb = stored("1", "n1", true);
    inb.total = 1000;
    inb.up = 900;
    inb.down = 50;
    let mut store = vec![inb, stored("2", "n2", true)];
    let mut stats = xray_panel::counters::TrafficStats::new();
    stats.add_bytes("n1".to_string(), 80, true);
    assert!(xray_panel::engine::update_db_traffic(&mut store, &stats));
    let c = synthesize_config(store, None, None);
    assert_eq!(c.inbounds.len(), 1);
    assert!(c.inbounds.iter().all(|e| e.tag != "n1"));
}

#[test]
fn blank_listen_defaults_to_every_address() {
    let mut a = stored("1", "n1", true);
    a.listen = Some("  ".to_string());
    let mut b = stored("2", "n2", true);
    b.listen = Some("127.0.0.1".to_string());
    let mut c = stored("3", "n3", true);
    c.listen = None;
    let cfg = synthesize_config(vec![a, b, c], None, None);
    assert_eq!(cfg.inbounds[0].listen, Some("0.0.0.0".to_string()));
    assert_eq!(cfg.inbounds[1].listen, Some("127.0.0.1".to_string()));
    assert_eq!(cfg.inbounds[2].listen, Some("0.0.0.0".to_string()));
}

#[test]
fn unicode_space_separates_and_trims() {
    let line: Vec<char> = "\u{a0}10\u{a0}250 RETURN tcp /* xui-\u{2003}n5\u{a0} */".chars().collect();
    assert_eq!(
        xray_panel::counters::parse_counter_line(&line),
        Some(("n5".to_string(), 250))
    );
}
