use crate::counters::{
    absorb, absorb_lines, has_tag, line_record, parse_family_stats, traffic_of,
    TrafficEntry, TrafficStats,
};
use crate::models::{effective_tag, Inbound};
use crate::text::{lemma_next_newline, next_newline};
use vstd::prelude::*;

verus! {

/// The counter listings of one address family: the ingress chain's and the egress chain's.
pub struct FamilyListing {
    pub in_listing: String,
    pub out_listing: String,
}

/// `v + d`, held at the largest `i64`.
pub open spec fn add_usage(v: i64, d: u64) -> i64 {
    if v + d > i64::MAX {
        i64::MAX
    } else {
        (v + d) as i64
    }
}

/// A positive quota that the usage reaches or exceeds.
pub open spec fn quota_reached(total: i64, up: i64, down: i64) -> bool {
    total > 0 && up + down >= total
}

/// The inbound after a cycle that counted `d_up` ingress and `d_down` egress bytes for
/// it: nothing changes on a zero count; otherwise the usage grows, and the inbound is
/// disabled when its quota is reached.
pub open spec fn after_traffic(inb: Inbound, d_up: u64, d_down: u64) -> Inbound {
    if d_up == 0 && d_down == 0 {
        inb
    } else {
        let up = add_usage(inb.up, d_up);
        let down = add_usage(inb.down, d_down);
        Inbound {
            up,
            down,
            enable: if quota_reached(inb.total, up, down) {
                false
            } else {
                inb.enable
            },
            ..inb
        }
    }
}

/// The store after a cycle whose counts are `stats`: each inbound takes the counts of its tag.
pub open spec fn after_cycle(store: Seq<Inbound>, stats: Seq<TrafficEntry>) -> Seq<Inbound> {
    Seq::new(
        store.len(),
        |i: int|
            after_traffic(
                store[i],
                traffic_of(stats, effective_tag(store[i])).0,
                traffic_of(stats, effective_tag(store[i])).1,
            ),
    )
}

/// Some inbound was enabled before and is disabled after.
pub open spec fn some_newly_disabled(before: Seq<Inbound>, after: Seq<Inbound>) -> bool {
    exists|i: int| 0 <= i < before.len() && before[i].enable && !after[i].enable
}

/// The counts that a cycle reads: the IPv4 chains, then the IPv6 chains where that family
/// is available, each ingress listing before its egress listing.
pub open spec fn stats_of_listings(ipv4: FamilyListing, ipv6: Option<FamilyListing>) -> Seq<
    TrafficEntry,
> {
    let v4 = absorb_lines(
        absorb_lines(Seq::empty(), ipv4.in_listing@, 0, true),
        ipv4.out_listing@,
        0,
        false,
    );
    match ipv6 {
        None => v4,
        Some(l) => absorb_lines(absorb_lines(v4, l.in_listing@, 0, true), l.out_listing@, 0, false),
    }
}

fn add_usage_exec(v: i64, d: u64) -> (r: i64)
    ensures
        r == add_usage(v, d),
{
    let s = v as i128 + d as i128;
    if s > i64::MAX as i128 {
        i64::MAX
    } else {
        s as i64
    }
}

/// Adds one cycle's counts to an inbound's usage and disables it when its quota is
/// reached. Returns whether this disabled it.
pub fn apply_traffic(inb: &mut Inbound, d_up: u64, d_down: u64) -> (newly_disabled: bool)
    ensures
        *final(inb) == after_traffic(*old(inb), d_up, d_down),
        newly_disabled == (old(inb).enable && !final(inb).enable),
{
    if d_up == 0 && d_down == 0 {
        return false;
    }
    let was_enabled = inb.enable;
    let up = add_usage_exec(inb.up, d_up);
    let down = add_usage_exec(inb.down, d_down);
    inb.up = up;
    inb.down = down;
    if inb.total > 0 && up as i128 + down as i128 >= inb.total as i128 {
        inb.enable = false;
    }
    was_enabled && !inb.enable
}

/// Folds one cycle's counts into the store, each inbound taking the counts of its tag.
/// Returns whether some inbound was disabled by it, so that the configuration must be
/// synthesized again.
pub fn update_db_traffic(store: &mut Vec<Inbound>, stats: &TrafficStats) -> (needs_reapply: bool)
    requires
        stats.wf(),
    ensures
        final(store)@ == after_cycle(old(store)@, stats@),
        needs_reapply == some_newly_disabled(old(store)@, final(store)@),
{
    let ghost s0 = store@;
    let mut needs_reapply = false;
    let mut i: usize = 0;
    while i < store.len()
        invariant
            stats.wf(),
            store@.len() == s0.len(),
            i <= s0.len(),
            forall|j: int| 0 <= j < i ==> store@[j] == after_cycle(s0, stats@)[j],
            forall|j: int| i <= j < s0.len() ==> store@[j] == s0[j],
            needs_reapply == (exists|j: int| 0 <= j < i && s0[j].enable && !store@[j].enable),
        decreases s0.len() - i,
    {
        let ghost prev = store@;
        let tag = store[i].effective_tag();
        let (d_up, d_down) = stats.get(&tag);
        let mut inb = store.remove(i);
        let newly = apply_traffic(&mut inb, d_up, d_down);
        store.insert(i, inb);
        if newly {
            needs_reapply = true;
        }
        proof {
            assert(forall|j: int| 0 <= j < i ==> store@[j] == prev[j]);
            if newly {
                assert(s0[i as int].enable && !store@[i as int].enable);
            }
        }
        i += 1;
    }
    assert(store@ =~= after_cycle(s0, stats@));
    needs_reapply
}

/// The counts of one cycle, read from the counter listings of each address family.
pub fn read_all_stats(ipv4: &FamilyListing, ipv6: Option<&FamilyListing>) -> (r: TrafficStats)
    ensures
        r.wf(),
        r@ == stats_of_listings(
            *ipv4,
            match ipv6 {
                Some(l) => Some(*l),
                None => None,
            },
        ),
{
    let mut stats = TrafficStats::new();
    parse_family_stats(ipv4.in_listing.as_str(), ipv4.out_listing.as_str(), &mut stats);
    match ipv6 {
        Some(l) => parse_family_stats(l.in_listing.as_str(), l.out_listing.as_str(), &mut stats),
        None => {},
    }
    stats
}

/// One accounting cycle over the enabled inbounds: reads the counts from the listings
/// taken before the chains were reset, and folds them into the store. Returns whether
/// the configuration must be synthesized again.
pub fn process_iptables_traffic(
    store: &mut Vec<Inbound>,
    ipv4: &FamilyListing,
    ipv6: Option<&FamilyListing>,
) -> (needs_reapply: bool)
    ensures
        final(store)@ == after_cycle(
            old(store)@,
            stats_of_listings(
                *ipv4,
                match ipv6 {
                    Some(l) => Some(*l),
                    None => None,
                },
            ),
        ),
        needs_reapply == some_newly_disabled(old(store)@, final(store)@),
{
    let stats = read_all_stats(ipv4, ipv6);
    update_db_traffic(store, &stats)
}

/// The inbound after cycles that counted each of `deltas` in turn.
pub open spec fn after_cycles(inb: Inbound, deltas: Seq<(u64, u64)>) -> Inbound
    decreases deltas.len(),
{
    if deltas.len() == 0 {
        inb
    } else {
        after_cycles(after_traffic(inb, deltas[0].0, deltas[0].1), deltas.drop_first())
    }
}

/// An inbound without a quota is never disabled by accounting, whatever it counts.
pub proof fn lemma_unlimited_never_disabled(inb: Inbound, deltas: Seq<(u64, u64)>)
    requires
        inb.total == 0,
    ensures
        after_cycles(inb, deltas).enable == inb.enable,
        after_cycles(inb, deltas).total == 0,
    decreases deltas.len(),
{
    if deltas.len() > 0 {
        lemma_unlimited_never_disabled(
            after_traffic(inb, deltas[0].0, deltas[0].1),
            deltas.drop_first(),
        );
    }
}

/// The first cycle whose counts bring the usage of an inbound with a positive quota to
/// that quota or beyond disables it.
pub proof fn lemma_quota_crossing_disables(inb: Inbound, d_up: u64, d_down: u64)
    requires
        inb.total > 0,
        inb.enable,
        !quota_reached(inb.total, inb.up, inb.down),
        d_up > 0 || d_down > 0,
        quota_reached(inb.total, add_usage(inb.up, d_up), add_usage(inb.down, d_down)),
    ensures
        !after_traffic(inb, d_up, d_down).enable,
{
}

/// A cycle that counted nothing, as one that follows a reset with no traffic in between,
/// leaves the store as it was and asks for no new configuration.
pub proof fn lemma_idle_cycle_changes_nothing(store: Seq<Inbound>, stats: Seq<TrafficEntry>)
    requires
        forall|i: int| 0 <= i < stats.len() ==> stats[i].1 == 0 && stats[i].2 == 0,
    ensures
        after_cycle(store, stats) == store,
        !some_newly_disabled(store, after_cycle(store, stats)),
{
    assert forall|i: int| 0 <= i < store.len() implies after_cycle(store, stats)[i] == store[i] by {
        let t = effective_tag(store[i]);
        if has_tag(stats, t) {
            let k = choose|k: int| 0 <= k < stats.len() && stats[k].0 == t;
            assert(stats[k].1 == 0 && stats[k].2 == 0);
        }
    }
    assert(after_cycle(store, stats) =~= store);
}

/// Every entry of the table counts zero bytes.
pub open spec fn all_zero(s: Seq<TrafficEntry>) -> bool {
    forall|i: int| 0 <= i < s.len() ==> #[trigger] s[i].1 == 0 && s[i].2 == 0
}

/// The line of `t` that starts at `pos` reports no bytes.
pub open spec fn line_reports_no_bytes(t: Seq<char>, pos: int) -> bool {
    match line_record(t.subrange(pos, next_newline(t, pos))) {
        Some(r) => r.1 == 0,
        None => true,
    }
}

/// `pos` is where a line of `t` starts.
pub open spec fn line_start(t: Seq<char>, pos: int) -> bool {
    0 <= pos < t.len() && (pos == 0 || t[pos - 1] == '\n')
}

/// No line of the listing reports any bytes, as after a reset with no traffic since.
pub open spec fn listing_is_idle(t: Seq<char>) -> bool {
    forall|pos: int| #[trigger] line_start(t, pos) ==> line_reports_no_bytes(t, pos)
}

proof fn lemma_idle_lines_keep_zero(s: Seq<TrafficEntry>, t: Seq<char>, pos: int, is_in: bool)
    requires
        all_zero(s),
        listing_is_idle(t),
        pos == 0 || pos >= t.len() || (0 < pos && t[pos - 1] == '\n'),
    ensures
        all_zero(absorb_lines(s, t, pos, is_in)),
    decreases t.len() - pos,
{
    if 0 <= pos < t.len() {
        let e = next_newline(t, pos);
        lemma_next_newline(t, pos);
        assert(line_start(t, pos));
        assert(line_reports_no_bytes(t, pos));
        let s1 = match line_record(t.subrange(pos, e)) {
            Some(r) => absorb(s, r.0, r.1, is_in),
            None => s,
        };
        assert(all_zero(s1)) by {
            match line_record(t.subrange(pos, e)) {
                Some(r) => {
                    if has_tag(s, r.0) {
                        let i = choose|i: int| 0 <= i < s.len() && s[i].0 == r.0;
                        assert(s[i].1 == 0 && s[i].2 == 0);
                    }
                },
                None => {},
            }
        }
        let next = if e < pos || e >= t.len() {
            t.len() as int
        } else {
            e + 1
        };
        lemma_idle_lines_keep_zero(s1, t, next, is_in);
    }
}

/// A cycle whose listings report no bytes in any line, as when nothing passed since the
/// previous cycle reset the counters, reads a zero count for every tag, leaves the store
/// as it was, and asks for no new configuration.
pub proof fn lemma_idle_listings_change_nothing(
    store: Seq<Inbound>,
    ipv4: FamilyListing,
    ipv6: Option<FamilyListing>,
)
    requires
        listing_is_idle(ipv4.in_listing@),
        listing_is_idle(ipv4.out_listing@),
        ipv6 matches Some(l) ==> listing_is_idle(l.in_listing@) && listing_is_idle(l.out_listing@),
    ensures
        all_zero(stats_of_listings(ipv4, ipv6)),
        after_cycle(store, stats_of_listings(ipv4, ipv6)) == store,
        !some_newly_disabled(store, after_cycle(store, stats_of_listings(ipv4, ipv6))),
{
    let e: Seq<TrafficEntry> = Seq::empty();
    lemma_idle_lines_keep_zero(e, ipv4.in_listing@, 0, true);
    let a = absorb_lines(e, ipv4.in_listing@, 0, true);
    lemma_idle_lines_keep_zero(a, ipv4.out_listing@, 0, false);
    let v4 = absorb_lines(a, ipv4.out_listing@, 0, false);
    match ipv6 {
        Some(l) => {
            lemma_idle_lines_keep_zero(v4, l.in_listing@, 0, true);
            lemma_idle_lines_keep_zero(
                absorb_lines(v4, l.in_listing@, 0, true),
                l.out_listing@,
                0,
                false,
            );
        },
        None => {},
    }
    lemma_idle_cycle_changes_nothing(store, stats_of_listings(ipv4, ipv6));
}

/// In a cycle, an inbound without a quota keeps its enable flag, and its usage grows by
/// the counts of its tag (held at the largest `i64`).
pub proof fn lemma_cycle_keeps_unlimited_enabled(store: Seq<Inbound>, stats: Seq<TrafficEntry>, i: int)
    requires
        0 <= i < store.len(),
        store[i].total == 0,
    ensures
        after_cycle(store, stats)[i].enable == store[i].enable,
        after_cycle(store, stats)[i].up == add_usage(
            store[i].up,
            traffic_of(stats, effective_tag(store[i])).0,
        ),
        after_cycle(store, stats)[i].down == add_usage(
            store[i].down,
            traffic_of(stats, effective_tag(store[i])).1,
        ),
{
}

} // verus!
