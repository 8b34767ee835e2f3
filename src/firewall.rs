use crate::models::{effective_tag, Inbound};
use crate::synth::enabled_of;
use crate::text::{
    chars_of, decimal_string, first_field, first_field_is, line_views, signed_text, split_lines,
    text_lines,
};
use vstd::prelude::*;
use vstd::string::StringExecFns;

verus! {

/// The texts of a list of strings.
pub open spec fn texts(v: Seq<String>) -> Seq<Seq<char>> {
    v.map_values(|s: String| s@)
}

/// One per-inbound accounting rule: it returns from `chain` on packets of `protocol` whose
/// port (`--dport` or `--sport`) is `port`, and carries the inbound's comment.
pub struct AccountingRule {
    pub chain: String,
    pub protocol: String,
    pub port_flag: String,
    pub port: String,
    pub comment: String,
}

/// The comment that marks the accounting rules of a tag.
pub open spec fn comment_of(tag: Seq<char>) -> Seq<char> {
    "xui-"@ + tag
}

/// The chain of the `q`-th rule of an inbound: two ingress rules, then two egress rules.
pub open spec fn rule_chain(q: int) -> Seq<char> {
    if q < 2 {
        "XUI_IN"@
    } else {
        "XUI_OUT"@
    }
}

/// Ingress rules match the destination port, egress rules the source port.
pub open spec fn rule_flag(q: int) -> Seq<char> {
    if q < 2 {
        "--dport"@
    } else {
        "--sport"@
    }
}

/// Each direction has a tcp rule, then a udp rule.
pub open spec fn rule_protocol(q: int) -> Seq<char> {
    if q % 2 == 0 {
        "tcp"@
    } else {
        "udp"@
    }
}

/// `r` is the `q`-th accounting rule of `inb`.
pub open spec fn rule_ok(r: AccountingRule, inb: Inbound, q: int) -> bool {
    &&& r.chain@ == rule_chain(q)
    &&& r.protocol@ == rule_protocol(q)
    &&& r.port_flag@ == rule_flag(q)
    &&& r.port@ == signed_text(inb.port as int)
    &&& r.comment@ == comment_of(effective_tag(inb))
}

/// The accounting rules of a store: four for each enabled inbound, in order.
pub open spec fn rules_ok(rules: Seq<AccountingRule>, store: Seq<Inbound>) -> bool {
    &&& rules.len() == 4 * enabled_of(store).len()
    &&& forall|j: int, q: int|
        0 <= j < enabled_of(store).len() && 0 <= q < 4 ==> rule_ok(
            #[trigger] rules[4 * j + q],
            enabled_of(store)[j],
            q,
        )
}

proof fn lemma_enabled_of_push(s: Seq<Inbound>, x: Inbound)
    ensures
        enabled_of(s.push(x)) == if x.enable {
            enabled_of(s).push(x)
        } else {
            enabled_of(s)
        },
    decreases s.len(),
{
    if s.len() == 0 {
        assert(s.push(x).drop_first() =~= s);
        if x.enable {
            assert(seq![x] + enabled_of(s) =~= enabled_of(s).push(x));
        }
    } else {
        assert(s.push(x).drop_first() =~= s.drop_first().push(x));
        lemma_enabled_of_push(s.drop_first(), x);
        if s[0].enable {
            assert(seq![s[0]] + enabled_of(s.drop_first()).push(x) =~= (seq![s[0]] + enabled_of(
                s.drop_first(),
            )).push(x));
        }
    }
}

fn make_rule(chain: &str, protocol: &str, port_flag: &str, port: &String, comment: &String) -> (r:
    AccountingRule)
    ensures
        r.chain@ == chain@,
        r.protocol@ == protocol@,
        r.port_flag@ == port_flag@,
        r.port@ == port@,
        r.comment@ == comment@,
{
    AccountingRule {
        chain: String::from_str(chain),
        protocol: String::from_str(protocol),
        port_flag: String::from_str(port_flag),
        port: port.clone(),
        comment: comment.clone(),
    }
}

/// The accounting rules to add after the chains are flushed: for each enabled inbound,
/// an ingress rule matched by destination port and an egress rule matched by source
/// port, each for tcp and for udp, tagged with the inbound's comment.
pub fn sync_family_rules(store: &Vec<Inbound>) -> (r: Vec<AccountingRule>)
    ensures
        rules_ok(r@, store@),
{
    let mut rules: Vec<AccountingRule> = Vec::new();
    let mut i: usize = 0;
    while i < store.len()
        invariant
            i <= store@.len(),
            rules_ok(rules@, store@.subrange(0, i as int)),
        decreases store@.len() - i,
    {
        let inb = &store[i];
        proof {
            assert(store@.subrange(0, i + 1) =~= store@.subrange(0, i as int).push(*inb));
            lemma_enabled_of_push(store@.subrange(0, i as int), *inb);
        }
        if inb.enable {
            let tag = inb.effective_tag();
            let port = decimal_string(inb.port);
            let comment = String::from_str("xui-").concat(tag.as_str());
            let ghost old_rules = rules@;
            let ghost n = enabled_of(store@.subrange(0, i as int)).len();
            rules.push(make_rule("XUI_IN", "tcp", "--dport", &port, &comment));
            rules.push(make_rule("XUI_IN", "udp", "--dport", &port, &comment));
            rules.push(make_rule("XUI_OUT", "tcp", "--sport", &port, &comment));
            rules.push(make_rule("XUI_OUT", "udp", "--sport", &port, &comment));
            proof {
                let en = enabled_of(store@.subrange(0, i + 1));
                assert(en == enabled_of(store@.subrange(0, i as int)).push(*inb));
                assert forall|j: int, q: int| 0 <= j < en.len() && 0 <= q < 4 implies rule_ok(
                    #[trigger] rules@[4 * j + q],
                    en[j],
                    q,
                ) by {
                    if j < n {
                        assert(rules@[4 * j + q] == old_rules[4 * j + q]);
                        assert(en[j] == enabled_of(store@.subrange(0, i as int))[j]);
                    } else {
                        assert(j == n);
                    }
                }
            }
        }
        i += 1;
    }
    assert(store@.subrange(0, i as int) =~= store@);
    rules
}

/// The arguments of a firewall command on an accounting rule: `-C` checks that it
/// exists, `-A` appends it.
pub open spec fn rule_args_text(op: Seq<char>, r: AccountingRule) -> Seq<Seq<char>> {
    seq![
        op,
        r.chain@,
        "-p"@,
        r.protocol@,
        r.port_flag@,
        r.port@,
        "-j"@,
        "RETURN"@,
        "-m"@,
        "comment"@,
        "--comment"@,
        r.comment@,
    ]
}

/// The arguments of a firewall command on an accounting rule.
pub fn rule_args(op: &str, r: &AccountingRule) -> (args: Vec<String>)
    ensures
        texts(args@) == rule_args_text(op@, *r),
{
    let mut a: Vec<String> = Vec::new();
    a.push(String::from_str(op));
    a.push(r.chain.clone());
    a.push(String::from_str("-p"));
    a.push(r.protocol.clone());
    a.push(r.port_flag.clone());
    a.push(r.port.clone());
    a.push(String::from_str("-j"));
    a.push(String::from_str("RETURN"));
    a.push(String::from_str("-m"));
    a.push(String::from_str("comment"));
    a.push(String::from_str("--comment"));
    a.push(r.comment.clone());
    assert(texts(a@) =~= rule_args_text(op@, *r));
    a
}

/// What follows the check of an accounting rule: nothing when the rule exists, else
/// the command that appends it.
pub fn check_and_add_rule(r: &AccountingRule, exists: bool) -> (cmd: Option<Vec<String>>)
    ensures
        exists ==> cmd is None,
        !exists ==> (cmd matches Some(a) && texts(a@) == rule_args_text("-A"@, *r)),
{
    if exists {
        None
    } else {
        Some(rule_args("-A", r))
    }
}

fn args2(a: &str, b: &str) -> (r: Vec<String>)
    ensures
        texts(r@) == seq![a@, b@],
{
    let mut v: Vec<String> = Vec::new();
    v.push(String::from_str(a));
    v.push(String::from_str(b));
    assert(texts(v@) =~= seq![a@, b@]);
    v
}

/// Progress of placing the jump into an accounting chain first in its base chain.
#[derive(PartialEq, Eq, Structural, Clone, Copy, Debug)]
pub enum HookState {
    Start,
    Checking,
    Removing,
    Inserting,
    Done,
}

/// What came back from the last command.
pub enum HookEvent {
    Begin,
    /// The listing of the base chain (a title line, a column header, then one line per
    /// rule, its target first); `None` when the listing failed.
    Listed(Option<String>),
    /// Whether a removal of the jump succeeded.
    Removed(bool),
    Inserted,
}

/// The next command to run.
#[derive(PartialEq, Eq, Structural, Clone, Copy, Debug)]
pub enum HookAction {
    ListChain,
    RemoveJump,
    InsertJumpAtTop,
    Finish,
}

/// In a chain listing, the first rule jumps to `target` and no other rule does.
pub open spec fn jump_first_and_only(listing: Seq<char>, target: Seq<char>) -> bool {
    let ls = text_lines(listing, 0);
    &&& ls.len() >= 3
    &&& first_field(ls[2]) == target
    &&& forall|i: int| 3 <= i < ls.len() ==> first_field(#[trigger] ls[i]) != target
}

/// The listing succeeded and shows the jump first, and only once.
pub open spec fn at_top(listing: Option<String>, target: Seq<char>) -> bool {
    listing matches Some(t) && jump_first_and_only(t@, target)
}

/// The base chain is listed first. Unless the jump is its first rule and occurs nowhere
/// else, every occurrence is removed (until a removal fails: none is left) and the jump
/// is inserted once at position one. So a jump that is displaced by another rule, or
/// duplicated further down, ends first and single.
pub open spec fn hook_transition(s: HookState, e: HookEvent, target: Seq<char>) -> (
    HookState,
    HookAction,
) {
    match (s, e) {
        (HookState::Start, HookEvent::Begin) => (HookState::Checking, HookAction::ListChain),
        (HookState::Checking, HookEvent::Listed(l)) => if at_top(l, target) {
            (HookState::Done, HookAction::Finish)
        } else {
            (HookState::Removing, HookAction::RemoveJump)
        },
        (HookState::Removing, HookEvent::Removed(true)) => (
            HookState::Removing,
            HookAction::RemoveJump,
        ),
        (HookState::Removing, HookEvent::Removed(false)) => (
            HookState::Inserting,
            HookAction::InsertJumpAtTop,
        ),
        _ => (HookState::Done, HookAction::Finish),
    }
}

fn jump_first_and_only_exec(listing: &str, target: &str) -> (r: bool)
    ensures
        r == jump_first_and_only(listing@, target@),
{
    let lines = split_lines(&chars_of(listing));
    let word = chars_of(target);
    proof {
        assert(line_views(lines@).len() == lines@.len());
    }
    if lines.len() < 3 || !first_field_is(&lines[2], &word) {
        proof {
            if lines@.len() >= 3 {
                assert(line_views(lines@)[2] == lines@[2]@);
            }
        }
        return false;
    }
    let mut i: usize = 3;
    while i < lines.len()
        invariant
            3 <= i <= lines@.len(),
            word@ == target@,
            line_views(lines@) == text_lines(listing@, 0),
            forall|j: int| 3 <= j < i ==> first_field(#[trigger] line_views(lines@)[j]) != target@,
        decreases lines@.len() - i,
    {
        assert(line_views(lines@)[i as int] == lines@[i as int]@);
        if first_field_is(&lines[i], &word) {
            return false;
        }
        i += 1;
    }
    assert(line_views(lines@)[2] == lines@[2]@);
    true
}

/// One decision in placing the jump to `target` first in its base chain.
pub fn ensure_jump_rule_at_top(state: HookState, event: HookEvent, target: &str) -> (r: (
    HookState,
    HookAction,
))
    ensures
        r == hook_transition(state, event, target@),
{
    match (state, event) {
        (HookState::Start, HookEvent::Begin) => (HookState::Checking, HookAction::ListChain),
        (HookState::Checking, HookEvent::Listed(l)) => {
            let top = match &l {
                Some(t) => jump_first_and_only_exec(t.as_str(), target),
                None => false,
            };
            if top {
                (HookState::Done, HookAction::Finish)
            } else {
                (HookState::Removing, HookAction::RemoveJump)
            }
        },
        (HookState::Removing, HookEvent::Removed(true)) => (
            HookState::Removing,
            HookAction::RemoveJump,
        ),
        (HookState::Removing, HookEvent::Removed(false)) => (
            HookState::Inserting,
            HookAction::InsertJumpAtTop,
        ),
        _ => (HookState::Done, HookAction::Finish),
    }
}

/// The arguments of the command for `action` on the jump from `base` to `target`;
/// none for `Finish`.
pub fn hook_args(action: HookAction, base: &str, target: &str) -> (r: Vec<String>)
    ensures
        texts(r@) == match action {
            HookAction::ListChain => seq!["-L"@, base@, "-n"@],
            HookAction::RemoveJump => seq!["-D"@, base@, "-j"@, target@],
            HookAction::InsertJumpAtTop => seq!["-I"@, base@, "1"@, "-j"@, target@],
            HookAction::Finish => Seq::<Seq<char>>::empty(),
        },
{
    let mut v: Vec<String> = Vec::new();
    match action {
        HookAction::ListChain => {
            v.push(String::from_str("-L"));
            v.push(String::from_str(base));
            v.push(String::from_str("-n"));
        },
        HookAction::RemoveJump => {
            v.push(String::from_str("-D"));
            v.push(String::from_str(base));
            v.push(String::from_str("-j"));
            v.push(String::from_str(target));
        },
        HookAction::InsertJumpAtTop => {
            v.push(String::from_str("-I"));
            v.push(String::from_str(base));
            v.push(String::from_str("1"));
            v.push(String::from_str("-j"));
            v.push(String::from_str(target));
        },
        HookAction::Finish => {},
    }
    proof {
        let expected = match action {
            HookAction::ListChain => seq!["-L"@, base@, "-n"@],
            HookAction::RemoveJump => seq!["-D"@, base@, "-j"@, target@],
            HookAction::InsertJumpAtTop => seq!["-I"@, base@, "1"@, "-j"@, target@],
            HookAction::Finish => Seq::<Seq<char>>::empty(),
        };
        assert(texts(v@) =~= expected);
    }
    v
}

/// An address family and its firewall tool.
#[derive(PartialEq, Eq, Structural, Clone, Copy, Debug)]
pub enum Family {
    Ipv4,
    Ipv6,
}

impl Family {
    /// The name of the family's firewall tool.
    pub fn tool(&self) -> (r: String)
        ensures
            r@ == match self {
                Family::Ipv4 => "iptables"@,
                Family::Ipv6 => "ip6tables"@,
            },
    {
        match self {
            Family::Ipv4 => String::from_str("iptables"),
            Family::Ipv6 => String::from_str("ip6tables"),
        }
    }
}

/// The synchronization of each address family: IPv4 always, IPv6 when its tool is
/// available, each with the full plan for the store.
pub fn sync_all_rules_flush(store: &Vec<Inbound>, ipv6_available: bool) -> (r: Vec<
    (Family, Vec<FamilyStep>),
>)
    ensures
        r@.len() == if ipv6_available {
            2int
        } else {
            1int
        },
        r@[0].0 == Family::Ipv4,
        plan_ok(r@[0].1@, store@),
        ipv6_available ==> r@[1].0 == Family::Ipv6 && plan_ok(r@[1].1@, store@),
{
    let mut r: Vec<(Family, Vec<FamilyStep>)> = Vec::new();
    r.push((Family::Ipv4, family_plan(store)));
    if ipv6_available {
        r.push((Family::Ipv6, family_plan(store)));
    }
    r
}

/// One step of synchronizing an address family's accounting chains.
pub enum FamilyStep {
    /// Create a chain; one that exists already is no failure.
    CreateChain(String),
    /// Remove every rule of a chain, and with them their counters.
    FlushChain(String),
    /// Place the jump from `base` to `target` first in `base`, once.
    EnsureHook { base: String, target: String },
    /// Append a rule to its chain unless the chain holds it already.
    CheckAndAdd(AccountingRule),
}

impl FamilyStep {
    /// The command of a chain step (`-N` to create, `-F` to flush); none for the steps
    /// that take more than one command.
    pub fn chain_args(&self) -> (r: Vec<String>)
        ensures
            texts(r@) == match self {
                FamilyStep::CreateChain(c) => seq!["-N"@, c@],
                FamilyStep::FlushChain(c) => seq!["-F"@, c@],
                _ => Seq::<Seq<char>>::empty(),
            },
    {
        match self {
            FamilyStep::CreateChain(c) => args2("-N", c.as_str()),
            FamilyStep::FlushChain(c) => args2("-F", c.as_str()),
            _ => {
                let v: Vec<String> = Vec::new();
                assert(texts(v@) =~= Seq::<Seq<char>>::empty());
                v
            },
        }
    }
}

/// The rules that the steps after the first six check and add.
pub open spec fn plan_rules(steps: Seq<FamilyStep>) -> Seq<AccountingRule> {
    Seq::new((steps.len() - 6) as nat, |k: int| steps[k + 6]->CheckAndAdd_0)
}

/// The synchronization of one family: create both accounting chains, flush both, put
/// both hooks first, then check and add every accounting rule of the store.
pub open spec fn plan_ok(steps: Seq<FamilyStep>, store: Seq<Inbound>) -> bool {
    &&& steps.len() >= 6
    &&& (steps[0] matches FamilyStep::CreateChain(c) && c@ == "XUI_IN"@)
    &&& (steps[1] matches FamilyStep::CreateChain(c) && c@ == "XUI_OUT"@)
    &&& (steps[2] matches FamilyStep::FlushChain(c) && c@ == "XUI_IN"@)
    &&& (steps[3] matches FamilyStep::FlushChain(c) && c@ == "XUI_OUT"@)
    &&& (steps[4] matches FamilyStep::EnsureHook { base, target } && base@ == "INPUT"@ && target@
        == "XUI_IN"@)
    &&& (steps[5] matches FamilyStep::EnsureHook { base, target } && base@ == "OUTPUT"@ && target@
        == "XUI_OUT"@)
    &&& forall|k: int| 6 <= k < steps.len() ==> (#[trigger] steps[k]) is CheckAndAdd
    &&& rules_ok(plan_rules(steps), store)
}

/// The steps that synchronize one address family's accounting chains with the store.
pub fn family_plan(store: &Vec<Inbound>) -> (r: Vec<FamilyStep>)
    ensures
        plan_ok(r@, store@),
{
    let mut rules = sync_family_rules(store);
    let ghost rules0 = rules@;
    let mut steps: Vec<FamilyStep> = Vec::new();
    steps.push(FamilyStep::CreateChain(String::from_str("XUI_IN")));
    steps.push(FamilyStep::CreateChain(String::from_str("XUI_OUT")));
    steps.push(FamilyStep::FlushChain(String::from_str("XUI_IN")));
    steps.push(FamilyStep::FlushChain(String::from_str("XUI_OUT")));
    steps.push(
        FamilyStep::EnsureHook { base: String::from_str("INPUT"), target: String::from_str("XUI_IN") },
    );
    steps.push(
        FamilyStep::EnsureHook {
            base: String::from_str("OUTPUT"),
            target: String::from_str("XUI_OUT"),
        },
    );
    let ghost head = steps@;
    while rules.len() > 0
        invariant
            steps@.len() >= 6,
            steps@.subrange(0, 6) == head,
            steps@.len() - 6 + rules@.len() == rules0.len(),
            rules@ == rules0.subrange(steps@.len() - 6, rules0.len() as int),
            forall|k: int| 6 <= k < steps@.len() ==> (#[trigger] steps@[k]) == FamilyStep::CheckAndAdd(rules0[k - 6]),
        decreases rules@.len(),
    {
        let r = rules.remove(0);
        steps.push(FamilyStep::CheckAndAdd(r));
        assert(rules@ =~= rules0.subrange(steps@.len() - 6, rules0.len() as int));
        assert(steps@.subrange(0, 6) =~= head);
    }
    proof {
        assert(plan_rules(steps@) =~= rules0);
        assert(steps@[0] == head[0]);
        assert(steps@[1] == head[1]);
        assert(steps@[2] == head[2]);
        assert(steps@[3] == head[3]);
        assert(steps@[4] == head[4]);
        assert(steps@[5] == head[5]);
        assert forall|k: int| 6 <= k < steps@.len() implies (#[trigger] steps@[k]) is CheckAndAdd by {
            assert(steps@[k] == FamilyStep::CheckAndAdd(rules0[k - 6]));
        }
    }
    steps
}

/// What identifies an accounting rule inside its chain: protocol, port match, port, comment.
pub type RuleKey = (Seq<char>, Seq<char>, Seq<char>, Seq<char>);

pub open spec fn rule_key(r: AccountingRule) -> RuleKey {
    (r.protocol@, r.port_flag@, r.port@, r.comment@)
}

/// The rules of `chain` after one step, from the rules it held before.
pub open spec fn step_effect(chain: Seq<char>, content: Seq<RuleKey>, s: FamilyStep) -> Seq<RuleKey> {
    match s {
        FamilyStep::FlushChain(c) => if c@ == chain {
            Seq::empty()
        } else {
            content
        },
        FamilyStep::CheckAndAdd(r) => if r.chain@ == chain && !content.contains(rule_key(r)) {
            content.push(rule_key(r))
        } else {
            content
        },
        _ => content,
    }
}

/// The rules of `chain` after the steps, in order, from the rules it held before.
pub open spec fn chain_after(chain: Seq<char>, content: Seq<RuleKey>, steps: Seq<FamilyStep>) -> Seq<
    RuleKey,
>
    decreases steps.len(),
{
    if steps.len() == 0 {
        content
    } else {
        step_effect(chain, chain_after(chain, content, steps.drop_last()), steps.last())
    }
}

/// The keys of the rules of `chain`, in order.
pub open spec fn chain_rules(rules: Seq<AccountingRule>, chain: Seq<char>) -> Seq<RuleKey>
    decreases rules.len(),
{
    if rules.len() == 0 {
        Seq::empty()
    } else if rules.last().chain@ == chain {
        chain_rules(rules.drop_last(), chain).push(rule_key(rules.last()))
    } else {
        chain_rules(rules.drop_last(), chain)
    }
}

/// Enabled inbounds carry distinct tags.
pub open spec fn enabled_tags_distinct(store: Seq<Inbound>) -> bool {
    let e = enabled_of(store);
    forall|a: int, b: int|
        0 <= a < e.len() && 0 <= b < e.len() && a != b ==> effective_tag(#[trigger] e[a])
            != effective_tag(#[trigger] e[b])
}

proof fn lemma_chain_rules_members(rules: Seq<AccountingRule>, chain: Seq<char>)
    ensures
        forall|x: RuleKey|
            #[trigger] chain_rules(rules, chain).contains(x) ==> exists|i: int|
                0 <= i < rules.len() && rules[i].chain@ == chain && rule_key(#[trigger] rules[i]) == x,
    decreases rules.len(),
{
    if rules.len() > 0 {
        let p = rules.drop_last();
        lemma_chain_rules_members(p, chain);
        assert forall|x: RuleKey| #[trigger] chain_rules(rules, chain).contains(x) implies exists|i: int|
            0 <= i < rules.len() && rules[i].chain@ == chain && rule_key(#[trigger] rules[i]) == x by {
            if chain_rules(p, chain).contains(x) {
                let i = choose|i: int| 0 <= i < p.len() && p[i].chain@ == chain && rule_key(#[trigger] p[i]) == x;
                assert(rules[i] == p[i]);
            } else {
                let c = chain_rules(rules, chain);
                let j = choose|j: int| 0 <= j < c.len() && c[j] == x;
                assert(rules.last().chain@ == chain && j == c.len() - 1);
                assert(rules[rules.len() - 1] == rules.last());
            }
        }
    }
}

proof fn lemma_keys_distinct(rules: Seq<AccountingRule>, store: Seq<Inbound>, i: int, k: int)
    requires
        rules_ok(rules, store),
        enabled_tags_distinct(store),
        0 <= i < k < rules.len(),
        rules[i].chain@ == rules[k].chain@,
    ensures
        rule_key(rules[i]) != rule_key(rules[k]),
{
    let e = enabled_of(store);
    let (ji, qi) = (i / 4, i % 4);
    let (jk, qk) = (k / 4, k % 4);
    assert(i == 4 * ji + qi && k == 4 * jk + qk && 0 <= qi < 4 && 0 <= qk < 4 && 0 <= ji && 0 <= jk) by (nonlinear_arith)
        requires ji == i / 4, qi == i % 4, jk == k / 4, qk == k % 4, 0 <= i, 0 <= k;
    assert(ji < e.len() && jk < e.len()) by (nonlinear_arith)
        requires i == 4 * ji + qi, k == 4 * jk + qk, 0 <= qi, 0 <= qk, k < 4 * e.len(), i < k;
    assert(rule_ok(rules[4 * ji + qi], e[ji], qi));
    assert(rule_ok(rules[4 * jk + qk], e[jk], qk));
    if rule_key(rules[i]) == rule_key(rules[k]) {
        reveal_strlit("XUI_IN");
        reveal_strlit("XUI_OUT");
        reveal_strlit("tcp");
        reveal_strlit("udp");
        assert("XUI_IN"@.len() == 6 && "XUI_OUT"@.len() == 7);
        assert("tcp"@[0] == 't' && "udp"@[0] == 'u');
        assert(rule_chain(qi) == rule_chain(qk));
        assert(rule_protocol(qi) == rule_protocol(qk));
        assert(qi == qk);
        assert(ji != jk);
        let ti = effective_tag(e[ji]);
        let tk = effective_tag(e[jk]);
        assert(comment_of(ti) == comment_of(tk));
        reveal_strlit("xui-");
        assert("xui-"@.len() == 4);
        assert(ti =~= comment_of(ti).subrange(4, comment_of(ti).len() as int));
        assert(tk =~= comment_of(tk).subrange(4, comment_of(tk).len() as int));
        assert(ti != tk);
    }
}

proof fn lemma_plan_prefix(
    steps: Seq<FamilyStep>,
    store: Seq<Inbound>,
    chain: Seq<char>,
    init: Seq<RuleKey>,
    m: int,
)
    requires
        plan_ok(steps, store),
        enabled_tags_distinct(store),
        chain == "XUI_IN"@ || chain == "XUI_OUT"@,
        6 <= m <= steps.len(),
    ensures
        chain_after(chain, init, steps.subrange(0, m)) == chain_rules(
            plan_rules(steps).subrange(0, m - 6),
            chain,
        ),
    decreases m,
{
    let rules = plan_rules(steps);
    reveal_strlit("XUI_IN");
    reveal_strlit("XUI_OUT");
    assert("XUI_IN"@.len() == 6 && "XUI_OUT"@.len() == 7);
    if m == 6 {
        assert forall|n: int| 1 <= n <= 6 implies #[trigger] steps.subrange(0, n).drop_last()
            == steps.subrange(0, n - 1) && steps.subrange(0, n).last() == steps[n - 1] by {
            assert(steps.subrange(0, n).drop_last() =~= steps.subrange(0, n - 1));
        }
        let c3 = chain_after(chain, init, steps.subrange(0, 3));
        assert(c3 == step_effect(chain, chain_after(chain, init, steps.subrange(0, 2)), steps[2]));
        let c4 = chain_after(chain, init, steps.subrange(0, 4));
        assert(c4 == step_effect(chain, c3, steps[3]));
        assert(c4 == Seq::<RuleKey>::empty());
        assert(chain_after(chain, init, steps.subrange(0, 5)) == step_effect(chain, c4, steps[4]));
        assert(chain_after(chain, init, steps.subrange(0, 6)) == Seq::<RuleKey>::empty());
        assert(rules.subrange(0, 0).len() == 0);
    } else {
        lemma_plan_prefix(steps, store, chain, init, m - 1);
        let k = m - 7;
        let prev = rules.subrange(0, k);
        assert(steps.subrange(0, m).drop_last() =~= steps.subrange(0, m - 1));
        assert(steps.subrange(0, m).last() == steps[m - 1]);
        assert(steps[m - 1] == FamilyStep::CheckAndAdd(rules[k])) by {
            assert(steps[m - 1] is CheckAndAdd);
        }
        assert(rules.subrange(0, k + 1).drop_last() =~= prev);
        assert(rules.subrange(0, k + 1).last() == rules[k]);
        if rules[k].chain@ == chain {
            lemma_chain_rules_members(prev, chain);
            if chain_rules(prev, chain).contains(rule_key(rules[k])) {
                let i = choose|i: int| 0 <= i < prev.len() && prev[i].chain@ == chain && rule_key(#[trigger] prev[i]) == rule_key(rules[k]);
                assert(prev[i] == rules[i]);
                lemma_keys_distinct(rules, store, i, k);
            }
        }
    }
}

/// Whatever the accounting chains held before, after a family's synchronization each
/// holds exactly its accounting rules of the store, in order (given that enabled inbounds
/// carry distinct tags): the rules of deleted inbounds are gone, and every counter was
/// reset by the flush.
pub proof fn lemma_plan_leaves_exact_rules(
    steps: Seq<FamilyStep>,
    store: Seq<Inbound>,
    chain: Seq<char>,
    init: Seq<RuleKey>,
)
    requires
        plan_ok(steps, store),
        enabled_tags_distinct(store),
        chain == "XUI_IN"@ || chain == "XUI_OUT"@,
    ensures
        chain_after(chain, init, steps) == chain_rules(plan_rules(steps), chain),
{
    lemma_plan_prefix(steps, store, chain, init, steps.len() as int);
    assert(steps.subrange(0, steps.len() as int) =~= steps);
    assert(plan_rules(steps).subrange(0, steps.len() - 6) =~= plan_rules(steps));
}

} // verus!
