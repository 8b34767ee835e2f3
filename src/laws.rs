use crate::counters::{traffic_of, TrafficEntry};
use crate::engine::{
    add_usage, after_cycle, all_zero, lemma_idle_listings_change_nothing, listing_is_idle, quota_reached, some_newly_disabled,
    stats_of_listings, FamilyListing,
};
use crate::firewall::{
    chain_after, chain_rules, enabled_tags_distinct, hook_transition, lemma_plan_leaves_exact_rules,
    plan_ok, plan_rules, FamilyStep, HookAction, HookEvent, HookState,
};
use crate::json::{field, text_of, JsonValue};
use crate::models::{effective_tag, Inbound, InboundConfig, XrayConfig};
use crate::synth::{config_ok, enabled_of, forced_sniffing, sockopt_policy};
use vstd::prelude::*;

verus! {

/// Two values that are the same, or are strings of the same text, or arrays of the same items.
pub open spec fn same_json(a: JsonValue, b: JsonValue) -> bool {
    a == b || (text_of(Some(a)) is Some && text_of(Some(a)) == text_of(Some(b))) || (a matches JsonValue::Array(
        v,
    ) && b matches JsonValue::Array(w) && v@ == w@)
}

pub open spec fn same_opt(a: Option<JsonValue>, b: Option<JsonValue>) -> bool {
    match (a, b) {
        (None, None) => true,
        (Some(x), Some(y)) => same_json(x, y),
        _ => false,
    }
}

/// Two configured inbounds that agree in every field the proxy engine requires.
pub open spec fn entries_agree(a: InboundConfig, b: InboundConfig) -> bool {
    &&& a.tag@ == b.tag@ && a.port == b.port && a.protocol@ == b.protocol@
    &&& (a.listen matches Some(x) && b.listen matches Some(y) && x@ == y@)
    &&& a.allocate == b.allocate && a.sniffing is None && b.sniffing is None
    &&& (a.settings matches Some(s) && b.settings matches Some(t) && {
        &&& s.clients@.len() == t.clients@.len()
        &&& forall|j: int|
            0 <= j < s.clients@.len() ==> (#[trigger] s.clients@[j]).id == t.clients@[j].id
                && s.clients@[j].email == t.clients@[j].email
        &&& s.decryption@ == t.decryption@
        &&& forced_sniffing(s.sniffing) && forced_sniffing(t.sniffing)
    })
    &&& (a.stream_settings matches Some(s) && b.stream_settings matches Some(t) && {
        &&& same_opt(s.network, t.network)
        &&& sockopt_policy(s.sockopt) && sockopt_policy(t.sockopt)
        &&& match (s.reality_settings, t.reality_settings) {
            (None, None) => true,
            (Some(x), Some(y)) => x.dest == y.dest && x.private_key == y.private_key && x.public_key
                == y.public_key && x.fingerprint == y.fingerprint && same_json(
                x.server_names,
                y.server_names,
            ) && same_json(x.short_ids, y.short_ids),
            _ => false,
        }
        &&& match (s.xhttp_settings, t.xhttp_settings) {
            (None, None) => true,
            (Some(x), Some(y)) => same_opt(x.mode, y.mode) && x.path == y.path && x.host == y.host,
            _ => false,
        }
        &&& forall|k: Seq<char>| #[trigger] field(s.extra@, k) == field(t.extra@, k)
    })
}

/// Two configurations that agree in every field the proxy engine requires.
pub open spec fn configs_agree(a: XrayConfig, b: XrayConfig) -> bool {
    &&& a.log.loglevel@ == b.log.loglevel@ && a.log.access == b.log.access && a.log.error
        == b.log.error
    &&& a.inbounds@.len() == b.inbounds@.len()
    &&& forall|j: int|
        0 <= j < a.inbounds@.len() ==> entries_agree(#[trigger] a.inbounds@[j], b.inbounds@[j])
    &&& a.outbounds@.len() == b.outbounds@.len()
    &&& forall|j: int|
        0 <= j < a.outbounds@.len() ==> (#[trigger] a.outbounds@[j]).tag@ == b.outbounds@[j].tag@
            && a.outbounds@[j].protocol@ == b.outbounds@[j].protocol@
    &&& (a.routing matches Some(r) && b.routing matches Some(s) && r.domain_strategy@
        == s.domain_strategy@ && r.rules@.len() == s.rules@.len())
}

/// Synthesizing twice from the same store snapshot gives configurations that agree in
/// every required field.
pub proof fn lemma_synthesis_deterministic(
    store: Seq<Inbound>,
    access: Option<String>,
    error: Option<String>,
    c1: XrayConfig,
    c2: XrayConfig,
)
    requires
        config_ok(c1, store, access, error),
        config_ok(c2, store, access, error),
    ensures
        configs_agree(c1, c2),
{
    assert forall|j: int| 0 <= j < c1.inbounds@.len() implies entries_agree(
        #[trigger] c1.inbounds@[j],
        c2.inbounds@[j],
    ) by {
        let inb = enabled_of(store)[j];
        let a = c1.inbounds@[j];
        let b = c2.inbounds@[j];
        assert(crate::synth::entry_ok(a, inb));
        assert(crate::synth::entry_ok(b, inb));
        let sa = a.stream_settings->Some_0;
        let sb = b.stream_settings->Some_0;
        match (sa.reality_settings, sb.reality_settings) {
            (Some(x), Some(y)) => {
                let stored = crate::json::member(inb.stream_settings, "realitySettings"@);
                lemma_name_lists_agree(
                    x.server_names,
                    y.server_names,
                    crate::json::member(stored, "serverNames"@),
                    crate::json::member(stored, "serverName"@),
                );
                lemma_name_lists_agree(
                    x.short_ids,
                    y.short_ids,
                    crate::json::member(stored, "shortIds"@),
                    crate::json::member(stored, "shortId"@),
                );
            },
            _ => {},
        }
    }
}

proof fn lemma_name_lists_agree(
    a: JsonValue,
    b: JsonValue,
    plural: Option<JsonValue>,
    singular: Option<JsonValue>,
)
    requires
        crate::synth::name_list_ok(a, plural, singular),
        crate::synth::name_list_ok(b, plural, singular),
    ensures
        same_json(a, b),
{
    if plural is None {
        match (a, b) {
            (JsonValue::Array(v), JsonValue::Array(w)) => {
                assert(v@ =~= w@);
            },
            _ => {},
        }
    }
}

/// `x` is an enabled inbound of `store`.
pub open spec fn enabled_member(store: Seq<Inbound>, x: Inbound) -> bool {
    x.enable && exists|m: int| 0 <= m < store.len() && store[m] == x
}

/// Every enabled inbound of a store is one of its inbounds, and is enabled.
pub proof fn lemma_enabled_members(store: Seq<Inbound>)
    ensures
        forall|j: int|
            0 <= j < enabled_of(store).len() ==> enabled_member(store, #[trigger] enabled_of(store)[j]),
    decreases store.len(),
{
    if store.len() > 0 {
        let rest = store.drop_first();
        lemma_enabled_members(rest);
        assert forall|j: int| 0 <= j < enabled_of(store).len() implies enabled_member(
            store,
            #[trigger] enabled_of(store)[j],
        ) by {
            if store[0].enable && j == 0 {
                assert(store[0] == enabled_of(store)[0]);
            } else {
                let jj = if store[0].enable {
                    j - 1
                } else {
                    j
                };
                assert(enabled_of(store)[j] == enabled_of(rest)[jj]);
                assert(enabled_member(rest, enabled_of(rest)[jj]));
                let m = choose|m: int| 0 <= m < rest.len() && rest[m] == enabled_of(rest)[jj];
                assert(store[m + 1] == rest[m]);
            }
        }
    } else {
        assert(enabled_of(store).len() == 0);
    }
}

/// A disabled inbound whose tag no enabled inbound shares has no listener in a
/// configuration synthesized from that store.
pub proof fn lemma_disabled_inbound_absent(
    store: Seq<Inbound>,
    k: int,
    access: Option<String>,
    error: Option<String>,
    c: XrayConfig,
)
    requires
        0 <= k < store.len(),
        !store[k].enable,
        forall|m: int|
            0 <= m < store.len() && m != k && store[m].enable ==> effective_tag(store[m])
                != effective_tag(store[k]),
        config_ok(c, store, access, error),
    ensures
        forall|j: int| 0 <= j < c.inbounds@.len() ==> (#[trigger] c.inbounds@[j]).tag@ != effective_tag(store[k]),
{
    lemma_enabled_members(store);
    assert forall|j: int| 0 <= j < c.inbounds@.len() implies (#[trigger] c.inbounds@[j]).tag@
        != effective_tag(store[k]) by {
        let e = enabled_of(store)[j];
        assert(crate::synth::entry_ok(c.inbounds@[j], e));
        assert(enabled_member(store, e));
        let m = choose|m: int| 0 <= m < store.len() && store[m] == e;
        assert(m != k);
    }
}

/// When a cycle's counts bring an enabled inbound with a positive quota to that quota,
/// the cycle disables it, and the configuration synthesized next has no listener for it
/// (given that enabled inbounds carry distinct tags).
pub proof fn lemma_quota_crossing_leaves_config(
    store: Seq<Inbound>,
    stats: Seq<TrafficEntry>,
    k: int,
    access: Option<String>,
    error: Option<String>,
    c: XrayConfig,
)
    requires
        0 <= k < store.len(),
        store[k].enable,
        store[k].total > 0,
        ({
            let d = traffic_of(stats, effective_tag(store[k]));
            (d.0 > 0 || d.1 > 0) && quota_reached(
                store[k].total,
                add_usage(store[k].up, d.0),
                add_usage(store[k].down, d.1),
            )
        }),
        forall|m: int|
            0 <= m < store.len() && m != k && store[m].enable ==> effective_tag(store[m])
                != effective_tag(store[k]),
        config_ok(c, after_cycle(store, stats), access, error),
    ensures
        !after_cycle(store, stats)[k].enable,
        forall|j: int| 0 <= j < c.inbounds@.len() ==> (#[trigger] c.inbounds@[j]).tag@ != effective_tag(store[k]),
{
    let next = after_cycle(store, stats);
    assert forall|m: int| 0 <= m < next.len() && m != k && next[m].enable implies effective_tag(
        next[m],
    ) != effective_tag(next[k]) by {
        assert(effective_tag(next[m]) == effective_tag(store[m]));
        assert(store[m].enable);
    }
    assert(effective_tag(next[k]) == effective_tag(store[k]));
    lemma_disabled_inbound_absent(next, k, access, error, c);
}

/// A cold start: no accounting chain or hook exists, so the counter listings fail (and
/// come back empty) or hold no accounting rule that counted bytes, the hook listing
/// fails, and every removal of a hook fails. The first cycle then reads a zero count for
/// every tag and changes no inbound; each hook is inserted once at
/// the top; and each family's synchronization leaves both accounting chains holding
/// exactly the store's accounting rules (given distinct tags among enabled inbounds).
pub proof fn lemma_cold_start(
    store: Seq<Inbound>,
    plan: Seq<FamilyStep>,
    ipv4: FamilyListing,
    ipv6: Option<FamilyListing>,
    target: Seq<char>,
)
    requires
        plan_ok(plan, store),
        enabled_tags_distinct(store),
        listing_is_idle(ipv4.in_listing@),
        listing_is_idle(ipv4.out_listing@),
        ipv6 matches Some(l) ==> listing_is_idle(l.in_listing@) && listing_is_idle(l.out_listing@),
    ensures
        all_zero(stats_of_listings(ipv4, ipv6)),
        after_cycle(store, stats_of_listings(ipv4, ipv6)) == store,
        !some_newly_disabled(store, after_cycle(store, stats_of_listings(ipv4, ipv6))),
        hook_transition(HookState::Start, HookEvent::Begin, target) == (
            HookState::Checking,
            HookAction::ListChain,
        ),
        hook_transition(HookState::Checking, HookEvent::Listed(None), target) == (
            HookState::Removing,
            HookAction::RemoveJump,
        ),
        hook_transition(HookState::Removing, HookEvent::Removed(false), target) == (
            HookState::Inserting,
            HookAction::InsertJumpAtTop,
        ),
        hook_transition(HookState::Inserting, HookEvent::Inserted, target) == (
            HookState::Done,
            HookAction::Finish,
        ),
        chain_after("XUI_IN"@, Seq::empty(), plan) == chain_rules(plan_rules(plan), "XUI_IN"@),
        chain_after("XUI_OUT"@, Seq::empty(), plan) == chain_rules(plan_rules(plan), "XUI_OUT"@),
{
    lemma_idle_listings_change_nothing(store, ipv4, ipv6);
    lemma_plan_leaves_exact_rules(plan, store, "XUI_IN"@, Seq::empty());
    lemma_plan_leaves_exact_rules(plan, store, "XUI_OUT"@, Seq::empty());
}

} // verus!
