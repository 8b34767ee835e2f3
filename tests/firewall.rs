use xray_panel::firewall::{
    ensure_jump_rule_at_top, family_plan, hook_args, rule_args, sync_all_rules_flush,
    sync_family_rules, Family, FamilyStep, HookAction, HookEvent, HookState,
};
use xray_panel::models::Inbound;
use xray_panel::text::decimal_string;

fn inbound(id: &str, tag: Option<&str>, port: i32, enable: bool) -> Inbound {
    Inbound {
        id: id.to_string(),
        tag: tag.map(|t| t.to_string()),
        protocol: "vless".to_string(),
        port,
        listen: None,
        enable,
        settings: None,
        stream_settings: None,
        sniffing: None,
        allocate: None,
        total: 0,
        up: 0,
        down: 0,
    }
}

#[test]
fn decimal_text_of_ports() {
    assert_eq!(decimal_string(0), "0");
    assert_eq!(decimal_string(443), "443");
    assert_eq!(decimal_string(65535), "65535");
    assert_eq!(decimal_string(-12), "-12");
    assert_eq!(decimal_string(i32::MIN), "-2147483648");
}

#[test]
fn four_rules_per_enabled_inbound() {
    let store = vec![
        inbound("1", Some("n1"), 443, true),
        inbound("2", Some("n2"), 80, false),
        inbound("3", None, 8443, true),
    ];
    let rules = sync_family_rules(&store);
    assert_eq!(rules.len(), 8);
    let args = rule_args("-A", &rules[0]);
    assert_eq!(
        args,
        vec!["-A", "XUI_IN", "-p", "tcp", "--dport", "443", "-j", "RETURN", "-m", "comment", "--comment", "xui-n1"]
    );
    let last = rule_args("-C", &rules[7]);
    assert_eq!(
        last,
        vec!["-C", "XUI_OUT", "-p", "udp", "--sport", "8443", "-j", "RETURN", "-m", "comment", "--comment", "xui-inbound-3"]
    );
    assert_eq!(rules[1].protocol, "udp");
    assert_eq!(rules[2].port_flag, "--sport");
}

#[test]
fn families_follow_ipv6_availability() {
    let store = vec![inbound("1", Some("n1"), 443, true)];
    let both = sync_all_rules_flush(&store, true);
    assert_eq!(both.len(), 2);
    assert_eq!(both[1].0, Family::Ipv6);
    assert_eq!(both[1].0.tool(), "ip6tables");
    let v4 = sync_all_rules_flush(&store, false);
    assert_eq!(v4.len(), 1);
    assert_eq!(v4[0].0.tool(), "iptables");
    assert_eq!(v4[0].1.len(), 10);
}

#[test]
fn family_plan_creates_flushes_hooks_then_adds() {
    let store = vec![inbound("1", Some("n1"), 443, true), inbound("2", Some("n2"), 80, false)];
    let plan = family_plan(&store);
    assert_eq!(plan.len(), 10);
    assert_eq!(plan[0].chain_args(), vec!["-N", "XUI_IN"]);
    assert_eq!(plan[1].chain_args(), vec!["-N", "XUI_OUT"]);
    assert_eq!(plan[2].chain_args(), vec!["-F", "XUI_IN"]);
    assert_eq!(plan[3].chain_args(), vec!["-F", "XUI_OUT"]);
    match &plan[4] {
        FamilyStep::EnsureHook { base, target } => assert_eq!((base.as_str(), target.as_str()), ("INPUT", "XUI_IN")),
        _ => panic!("expected the ingress hook"),
    }
    match &plan[5] {
        FamilyStep::EnsureHook { base, target } => assert_eq!((base.as_str(), target.as_str()), ("OUTPUT", "XUI_OUT")),
        _ => panic!("expected the egress hook"),
    }
    match &plan[9] {
        FamilyStep::CheckAndAdd(r) => {
            assert_eq!(rule_args("-A", r)[1..6].to_vec(), vec!["XUI_OUT", "-p", "udp", "--sport", "443"])
        }
        _ => panic!("expected a rule"),
    }
    assert!(plan[6].chain_args().is_empty());
}

#[test]
fn hook_already_first_is_left_alone() {
    let (s, a) = ensure_jump_rule_at_top(HookState::Start, HookEvent::Begin, "XUI_IN");
    assert_eq!((s, a), (HookState::Checking, HookAction::ListChain));
    let listing = "Chain INPUT (policy ACCEPT)\ntarget     prot opt source               destination\nXUI_IN     all  --  0.0.0.0/0            0.0.0.0/0\nACCEPT     tcp  --  0.0.0.0/0            0.0.0.0/0            tcp dpt:22\n";
    let (s, a) = ensure_jump_rule_at_top(s, HookEvent::Listed(Some(listing.to_string())), "XUI_IN");
    assert_eq!((s, a), (HookState::Done, HookAction::Finish));
}

#[test]
fn displaced_hook_is_removed_and_reinserted() {
    let listing = "Chain INPUT (policy ACCEPT)\ntarget     prot opt source               destination\nACCEPT     all  --  0.0.0.0/0            0.0.0.0/0\n";
    let (s, a) = ensure_jump_rule_at_top(HookState::Checking, HookEvent::Listed(Some(listing.to_string())), "XUI_IN");
    assert_eq!((s, a), (HookState::Removing, HookAction::RemoveJump));
    let (s, a) = ensure_jump_rule_at_top(s, HookEvent::Removed(true), "XUI_IN");
    assert_eq!((s, a), (HookState::Removing, HookAction::RemoveJump));
    let (s, a) = ensure_jump_rule_at_top(s, HookEvent::Removed(false), "XUI_IN");
    assert_eq!((s, a), (HookState::Inserting, HookAction::InsertJumpAtTop));
    let (s, a) = ensure_jump_rule_at_top(s, HookEvent::Inserted, "XUI_IN");
    assert_eq!((s, a), (HookState::Done, HookAction::Finish));
}

#[test]
fn cold_start_creates_chains_and_hooks() {
    assert_eq!(family_plan(&vec![inbound("1", Some("n1"), 443, true)]).len(), 10);
    let (s, _) = ensure_jump_rule_at_top(HookState::Start, HookEvent::Begin, "XUI_OUT");
    let (s, a) = ensure_jump_rule_at_top(s, HookEvent::Listed(None), "XUI_OUT");
    assert_eq!(a, HookAction::RemoveJump);
    let (s, a) = ensure_jump_rule_at_top(s, HookEvent::Removed(false), "XUI_OUT");
    assert_eq!(a, HookAction::InsertJumpAtTop);
    assert_eq!(hook_args(a, "OUTPUT", "XUI_OUT"), vec!["-I", "OUTPUT", "1", "-j", "XUI_OUT"]);
    let (s, a) = ensure_jump_rule_at_top(s, HookEvent::Inserted, "XUI_OUT");
    assert_eq!((s, a), (HookState::Done, HookAction::Finish));
}

#[test]
fn hook_command_arguments() {
    assert_eq!(hook_args(HookAction::ListChain, "INPUT", "XUI_IN"), vec!["-L", "INPUT", "-n"]);
    assert_eq!(hook_args(HookAction::RemoveJump, "INPUT", "XUI_IN"), vec!["-D", "INPUT", "-j", "XUI_IN"]);
    assert!(hook_args(HookAction::Finish, "INPUT", "XUI_IN").is_empty());
}

#[test]
fn missing_rule_is_appended() {
    let store = vec![inbound("1", Some("n1"), 443, true)];
    let rules = sync_family_rules(&store);
    assert!(xray_panel::firewall::check_and_add_rule(&rules[0], true).is_none());
    let add = xray_panel::firewall::check_and_add_rule(&rules[0], false).unwrap();
    assert_eq!(add[0], "-A");
    assert_eq!(add[11], "xui-n1");
}

#[test]
fn duplicated_hook_is_removed_and_reinserted() {
    let listing = "Chain INPUT (policy ACCEPT)\ntarget     prot opt source               destination\nXUI_IN     all  --  0.0.0.0/0            0.0.0.0/0\nACCEPT     all  --  0.0.0.0/0            0.0.0.0/0\nXUI_IN     all  --  0.0.0.0/0            0.0.0.0/0\n";
    let (s, a) = ensure_jump_rule_at_top(HookState::Checking, HookEvent::Listed(Some(listing.to_string())), "XUI_IN");
    assert_eq!((s, a), (HookState::Removing, HookAction::RemoveJump));
}

#[test]
fn chain_name_outside_target_column_is_not_a_jump() {
    let listing = "Chain INPUT (policy ACCEPT)\ntarget     prot opt source               destination\nACCEPT     all  --  0.0.0.0/0            0.0.0.0/0            /* XUI_IN */\n";
    let (_, a) = ensure_jump_rule_at_top(HookState::Checking, HookEvent::Listed(Some(listing.to_string())), "XUI_IN");
    assert_eq!(a, HookAction::RemoveJump);
}
