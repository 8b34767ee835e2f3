use xray_panel::counters::{parse_chain_stats_sum, parse_counter_line, TrafficStats};
use xray_panel::engine::{
    apply_traffic, process_iptables_traffic, read_all_stats, update_db_traffic, FamilyListing,
};
use xray_panel::models::Inbound;

fn inbound(id: &str, tag: Option<&str>, port: i32, total: i64, up: i64, down: i64) -> Inbound {
    Inbound {
        id: id.to_string(),
        tag: tag.map(|t| t.to_string()),
        protocol: "vless".to_string(),
        port,
        listen: None,
        enable: true,
        settings: None,
        stream_settings: None,
        sniffing: None,
        allocate: None,
        total,
        up,
        down,
    }
}

const IN_LISTING: &str = "Chain XUI_IN (1 references)
    pkts      bytes target     prot opt in     out     source               destination
      10     1200 RETURN     tcp  --  *      *       0.0.0.0/0            0.0.0.0/0            tcp dpt:443 /* xui-n1 */
       3      300 RETURN     udp  --  *      *       0.0.0.0/0            0.0.0.0/0            udp dpt:443 /* xui-n1 */
       1       80 RETURN     tcp  --  *      *       0.0.0.0/0            0.0.0.0/0            tcp dpt:8443 /* xui-n2 */
";

const OUT_LISTING: &str = "Chain XUI_OUT (1 references)
    pkts      bytes target     prot opt in     out     source               destination
       7      900 RETURN     tcp  --  *      *       0.0.0.0/0            0.0.0.0/0            tcp spt:443 /* xui-n1 */
";

fn chars(s: &str) -> Vec<char> {
    s.chars().collect()
}

#[test]
fn counter_line_gives_tag_and_bytes() {
    let line = chars("      10     1200 RETURN     tcp  --  *      *       0.0.0.0/0            0.0.0.0/0            tcp dpt:443 /* xui-n1 */");
    let (tag, bytes) = parse_counter_line(&line).unwrap();
    assert_eq!(tag, "n1");
    assert_eq!(bytes, 1200);
}

#[test]
fn counter_line_without_comment_is_skipped() {
    let line = chars("      10     1200 RETURN     tcp  --  *      *       0.0.0.0/0  0.0.0.0/0  tcp dpt:443");
    assert!(parse_counter_line(&line).is_none());
}

#[test]
fn counter_line_with_unclosed_comment_is_skipped() {
    let line = chars("  10  1200 RETURN tcp /* xui-n1");
    assert!(parse_counter_line(&line).is_none());
}

#[test]
fn counter_line_with_bad_byte_field_counts_zero() {
    let line = chars("  10  12x0 RETURN tcp /* xui-n9 */");
    let (tag, bytes) = parse_counter_line(&line).unwrap();
    assert_eq!(tag, "n9");
    assert_eq!(bytes, 0);
}

#[test]
fn counter_line_of_comment_alone_counts_zero() {
    let line = chars("/* xui-n1 */");
    assert_eq!(parse_counter_line(&line), Some(("n1".to_string(), 0)));
}

#[test]
fn chain_listing_sums_per_tag() {
    let mut stats = TrafficStats::new();
    parse_chain_stats_sum(IN_LISTING, &mut stats, true);
    assert_eq!(stats.get(&"n1".to_string()), (1500, 0));
    assert_eq!(stats.get(&"n2".to_string()), (80, 0));
    assert_eq!(stats.get(&"n3".to_string()), (0, 0));
    assert_eq!(stats.entries.len(), 2);
}

#[test]
fn listings_of_both_families_add_up() {
    let v4 = FamilyListing { in_listing: IN_LISTING.to_string(), out_listing: OUT_LISTING.to_string() };
    let v6 = FamilyListing { in_listing: IN_LISTING.to_string(), out_listing: String::new() };
    let stats = read_all_stats(&v4, Some(&v6));
    assert_eq!(stats.get(&"n1".to_string()), (3000, 900));
    assert_eq!(stats.get(&"n2".to_string()), (160, 0));
    let only_v4 = read_all_stats(&v4, None);
    assert_eq!(only_v4.get(&"n1".to_string()), (1500, 900));
}

#[test]
fn counts_saturate_at_the_largest_value() {
    let mut stats = TrafficStats::new();
    stats.add_bytes("n1".to_string(), u64::MAX - 1, true);
    stats.add_bytes("n1".to_string(), 5, true);
    assert_eq!(stats.get(&"n1".to_string()), (u64::MAX, 0));
}

#[test]
fn quota_crossing_disables_inbound() {
    let mut store = vec![inbound("1", Some("n1"), 443, 1000, 900, 50)];
    let mut stats = TrafficStats::new();
    stats.add_bytes("n1".to_string(), 80, true);
    let needs_reapply = update_db_traffic(&mut store, &stats);
    assert_eq!(store[0].up, 980);
    assert_eq!(store[0].down, 50);
    assert!(!store[0].enable);
    assert!(needs_reapply);
}

#[test]
fn unlimited_inbound_stays_enabled() {
    let mut inb = inbound("1", Some("n1"), 443, 0, 0, 0);
    for _ in 0..5 {
        let disabled = apply_traffic(&mut inb, 1 << 40, 1 << 40);
        assert!(!disabled);
    }
    assert!(inb.enable);
    assert_eq!(inb.up, 5 << 40);
}

#[test]
fn usage_below_quota_keeps_inbound_enabled() {
    let mut inb = inbound("1", Some("n1"), 443, 1000, 100, 100);
    assert!(!apply_traffic(&mut inb, 100, 100));
    assert!(inb.enable);
    assert_eq!((inb.up, inb.down), (200, 200));
    assert!(apply_traffic(&mut inb, 600, 0));
    assert!(!inb.enable);
}

#[test]
fn idle_cycle_changes_nothing() {
    let mut store = vec![inbound("1", Some("n1"), 443, 1000, 990, 20)];
    let idle = "Chain XUI_IN (1 references)
    pkts      bytes target     prot opt in     out     source               destination
       0        0 RETURN     tcp  --  *      *       0.0.0.0/0            0.0.0.0/0            tcp dpt:443 /* xui-n1 */
";
    let v4 = FamilyListing { in_listing: idle.to_string(), out_listing: String::new() };
    for _ in 0..2 {
        let needs_reapply = process_iptables_traffic(&mut store, &v4, None);
        assert!(!needs_reapply);
        assert_eq!((store[0].up, store[0].down), (990, 20));
        assert!(store[0].enable);
    }
}

#[test]
fn cycle_credits_inbound_without_own_tag() {
    let mut store = vec![inbound("abc", None, 443, 0, 0, 0)];
    let listing = "  5  700 RETURN tcp -- * * 0.0.0.0/0 0.0.0.0/0 tcp dpt:443 /* xui-inbound-abc */\n";
    let v4 = FamilyListing { in_listing: listing.to_string(), out_listing: String::new() };
    process_iptables_traffic(&mut store, &v4, None);
    assert_eq!(store[0].up, 700);
}

#[test]
fn scenario_quota_crossing_triggers_reapply() {
    let mut store = vec![inbound("1", Some("n1"), 443, 1000, 900, 50)];
    let listing = "  1  80 RETURN tcp -- * * 0.0.0.0/0 0.0.0.0/0 tcp dpt:443 /* xui-n1 */\n";
    let v4 = FamilyListing { in_listing: listing.to_string(), out_listing: String::new() };
    let needs_reapply = process_iptables_traffic(&mut store, &v4, None);
    assert_eq!(store[0].up + store[0].down, 1030);
    assert!(!store[0].enable);
    assert!(needs_reapply);
}

#[test]
fn cold_start_reports_zero_traffic() {
    let mut store = vec![inbound("1", Some("n1"), 443, 1000, 10, 10)];
    let empty = FamilyListing { in_listing: String::new(), out_listing: String::new() };
    let stats = read_all_stats(&empty, Some(&empty));
    assert!(stats.entries.is_empty());
    let needs_reapply = process_iptables_traffic(&mut store, &empty, Some(&empty));
    assert!(!needs_reapply);
    assert_eq!((store[0].up, store[0].down), (10, 10));
}
