//! What the rules of an ACL mean for the packets of a port.

use crate::acl_cidr::{
    cidr_text, cidr_text_reads_back, cidr_value, networks_cover_their_block, AclIpv4Cidr, CidrModel,
};
use crate::acl_laws::{
    accepted_selectors_are_disjoint, lemma_group_name, lemma_keys_distinct, lemma_no_priority_fault,
    lemma_order_place, plans_enforce_the_rules, policy_of_rule, ports_cover, rule_covers,
};
use crate::acl_overlap::{
    accepted_rules_agree, directions_meet, dst_ids, first_pair_reason, first_priority_fault,
    first_uses, lemma_first_from_found, overlap_reason, pair_reason, priority_fault, priority_order,
    rule_key, rule_keys, rules_agree, rules_candidate, rules_meet, src_ids,
};
use crate::acl_plan::{
    canonical_from, group_name, rendered, rules_template, table_groups, translation, validation,
    AclApplyPlanModel, AclPolicyPlanModel, ValidationModel,
};
use crate::acl_ports::{
    lemma_range_part, range_text, ranges_cover, ranges_from, ranges_valid, ranges_value,
};
use crate::acl_rules::{
    acl_prefix, canonical_rule, cidr_set, cidrs_value, datapath_directions, direction_name,
    direction_value, first_colon, first_from, first_invalid, limit_reason, rule_limit_reason,
    rule_name, rule_ranges, rules_limit_reason, sorted_directions,
};
use crate::acl_selector::{
    best_overlap, dst_of, interned_rules, interned_selectors_resolve, lemma_table, selector_covers,
    selector_table, selectors_overlap, src_of, AclSelectorId, CanonicalAclRuleModel,
    NormalizedAclRuleModel,
};
use crate::model::{NeutronAclRuleSnapshotModel, NeutronAclSnapshotModel};
use crate::ordered::{in_order, lemma_in_order, Key};
use crate::text::{
    decimal, lemma_pieces_single, lowered, pieces, signed_decimal, text_before, trimmed,
};
use vstd::prelude::*;

verus! {

/// A packet as a hook of an interface sees it. Traffic that leaves the instance is seen by hook 0,
/// traffic that enters it by hook 1.
pub struct Packet {
    pub hook: u8,
    pub proto: u8,
    pub src: int,
    pub dst: int,
    pub port: int,
}

/// A word of a rule, in lower case and without the white space around it.
pub open spec fn word(text: Option<Seq<char>>, missing: Seq<char>) -> Seq<char> {
    lowered(
        trimmed(
            match text {
                Some(t) => t,
                None => missing,
            },
        ),
    )
}

/// True when an address lies in one of the networks of a list, or the list is empty.
pub open spec fn address_matches(cidrs: Seq<Seq<char>>, address: int) -> bool {
    cidrs.len() == 0 || exists|i: int|
        0 <= i < cidrs.len() && (cidr_value(#[trigger] cidrs[i]) matches Some(network)
            && network.covers(address))
}

/// True when a rule acts on what a hook sees: a rule for egress on hook 0 alone, a rule for ingress
/// on hook 1 alone, and a rule for both on both.
pub open spec fn hook_matches(rule: NeutronAclRuleSnapshotModel, hook: u8) -> bool {
    let way = word(rule.direction, "ingress"@);
    ||| way == "egress"@ && hook == 0
    ||| way == "ingress"@ && hook == 1
    ||| way == "both"@ && (hook == 0 || hook == 1)
}

/// True when a rule is about a protocol, by its number.
pub open spec fn proto_matches(rule: NeutronAclRuleSnapshotModel, proto: u8) -> bool {
    let name = word(rule.protocol, "any"@);
    ||| name == "any"@
    ||| name == "icmp"@ && proto == 1
    ||| name == "tcp"@ && proto == 6
    ||| name == "udp"@ && proto == 17
}

/// True when a rule is about a destination port.
pub open spec fn port_matches(rule: NeutronAclRuleSnapshotModel, port: int) -> bool {
    match (rule.dst_port_min, rule.dst_port_max) {
        (None, None) => true,
        (Some(only), None) => port == only,
        (None, Some(only)) => port == only,
        (Some(min), Some(max)) => min <= port <= max,
    }
}

/// True when a rule is about a packet.
pub open spec fn rule_matches(rule: NeutronAclRuleSnapshotModel, packet: Packet) -> bool {
    &&& hook_matches(rule, packet.hook)
    &&& proto_matches(rule, packet.proto)
    &&& address_matches(rule.src_cidrs, packet.src)
    &&& address_matches(rule.dst_cidrs, packet.dst)
    &&& port_matches(rule, packet.port)
}

/// True when a rule drops what it is about.
pub open spec fn drops(rule: NeutronAclRuleSnapshotModel) -> bool {
    let action = word(rule.action, "allow"@);
    action == "drop"@ || action == "deny"@
}

/// True when a rule lets pass what it is about.
pub open spec fn passes(rule: NeutronAclRuleSnapshotModel) -> bool {
    let action = word(rule.action, "allow"@);
    action == "allow"@ || action == "accept"@ || action == "pass"@
}

/// True when an address belongs to a group of a plan.
pub open spec fn group_matches(plan: AclApplyPlanModel, name: Seq<char>, address: int) -> bool {
    name == "any"@ || exists|g: int|
        0 <= g < plan.groups.len() && (#[trigger] plan.groups[g]).name == name
            && address_matches(plan.groups[g].cidrs, address)
}

/// True when a policy of a plan is about a packet.
pub open spec fn policy_matches(
    plan: AclApplyPlanModel,
    policy: AclPolicyPlanModel,
    packet: Packet,
) -> bool {
    &&& policy.direction == packet.hook
    &&& policy.proto == 0 || policy.proto == packet.proto
    &&& group_matches(plan, policy.src_group, packet.src)
    &&& group_matches(plan, policy.dst_group, packet.dst)
    &&& ports_cover(policy.ports, packet.port)
}

proof fn lemma_words()
    ensures
        "ingress"@ != "egress"@,
        "ingress"@ != "both"@,
        "egress"@ != "both"@,
        "any"@ != "icmp"@,
        "any"@ != "tcp"@,
        "any"@ != "udp"@,
        "icmp"@ != "tcp"@,
        "icmp"@ != "udp"@,
        "tcp"@ != "udp"@,
        "allow"@ != "drop"@,
        "allow"@ != "deny"@,
        "accept"@ != "drop"@,
        "accept"@ != "deny"@,
        "pass"@ != "drop"@,
        "pass"@ != "deny"@,
{
    reveal_strlit("ingress");
    reveal_strlit("egress");
    reveal_strlit("both");
    reveal_strlit("any");
    reveal_strlit("icmp");
    reveal_strlit("tcp");
    reveal_strlit("udp");
    reveal_strlit("allow");
    reveal_strlit("accept");
    reveal_strlit("pass");
    reveal_strlit("drop");
    reveal_strlit("deny");
    assert("ingress"@.len() == 7 && "egress"@.len() == 6 && "both"@.len() == 4);
    assert("any"@[0] == 'a' && "icmp"@[0] == 'i' && "tcp"@[0] == 't' && "udp"@[0] == 'u');
    assert("allow"@[0] == 'a' && "accept"@[0] == 'a' && "pass"@[0] == 'p');
    assert("drop"@[0] == 'd' && "deny"@[0] == 'd');
}

/// True when every network of a selector is valid.
spec fn all_valid(selector: Seq<CidrModel>) -> bool {
    forall|i: int| 0 <= i < selector.len() ==> (#[trigger] selector[i]).valid()
}

proof fn lemma_cidrs(cidrs: Seq<Seq<char>>, id: Seq<char>)
    requires
        cidrs_value(cidrs, id) is Ok,
    ensures
        ({
            let read = cidrs_value(cidrs, id)->Ok_0;
            &&& read.len() == 0 <==> cidrs.len() == 0
            &&& all_valid(read)
            &&& forall|address: int| #[trigger]
                selector_covers(read, address) <==> cidrs.len() > 0 && address_matches(
                    cidrs,
                    address,
                )
        }),
{
    let read = cidrs_value(cidrs, id)->Ok_0;
    let all = cidr_set(cidrs);
    vstd::set_lib::lemma_int_range(0, cidrs.len() as int);
    assert(all.finite()) by {
        let images = vstd::set_lib::set_int_range(0, cidrs.len() as int).map(
            |i: int| cidr_value(cidrs[i])->0,
        );
        vstd::set_lib::set_int_range(0, cidrs.len() as int).lemma_map_finite(
            |i: int| cidr_value(cidrs[i])->0,
        );
        assert forall|c: CidrModel| #[trigger] all.contains(c) implies images.contains(c) by {
            let i = choose|i: int|
                0 <= i < cidrs.len() && cidr_value(#[trigger] cidrs[i]) == Some(c);
            assert(vstd::set_lib::set_int_range(0, cidrs.len() as int).contains(i));
        }
        vstd::set_lib::lemma_len_subset(all, images);
    }
    lemma_in_order::<AclIpv4Cidr>(all);
    lemma_first_from_found(cidrs.len() as int, 0, |i: int| cidr_value(cidrs[i]) is None);
    assert forall|i: int| 0 <= i < cidrs.len() implies cidr_value(#[trigger] cidrs[i]) is Some
        && read.contains(cidr_value(cidrs[i])->0) by {
        let p = |i: int| cidr_value(cidrs[i]) is None;
        assert(!p(i));
        assert(all.contains(cidr_value(cidrs[i])->0));
    }
    assert forall|i: int| 0 <= i < read.len() implies (#[trigger] read[i]).valid() by {
        assert(read.contains(read[i]));
        assert(all.contains(read[i]));
        let j = choose|j: int|
            0 <= j < cidrs.len() && cidr_value(#[trigger] cidrs[j]) == Some(read[i]);
        networks_cover_their_block(cidrs[j]);
    }
    if cidrs.len() > 0 {
        assert(read.contains(cidr_value(cidrs[0])->0));
    }
    if read.len() > 0 {
        assert(read.contains(read[0]));
        assert(all.contains(read[0]));
    }
    assert forall|address: int| #[trigger] selector_covers(read, address) <==> cidrs.len() > 0
        && address_matches(cidrs, address) by {
        if selector_covers(read, address) {
            let i = choose|i: int| 0 <= i < read.len() && (#[trigger] read[i]).covers(address);
            assert(read.contains(read[i]));
            assert(all.contains(read[i]));
            let j = choose|j: int|
                0 <= j < cidrs.len() && cidr_value(#[trigger] cidrs[j]) == Some(read[i]);
            assert(cidr_value(cidrs[j]) is Some);
        }
        if cidrs.len() > 0 && address_matches(cidrs, address) {
            let j = choose|j: int|
                0 <= j < cidrs.len() && (cidr_value(#[trigger] cidrs[j]) matches Some(network)
                    && network.covers(address));
            let c = cidr_value(cidrs[j])->0;
            assert(read.contains(c));
            let i = read.index_of(c);
            assert(read[i].covers(address));
        }
    }
}

proof fn lemma_ranges(rule: NeutronAclRuleSnapshotModel, proto: u8, id: Seq<char>)
    requires
        rule_ranges(rule, proto, id) is Ok,
    ensures
        ({
            let ranges = rule_ranges(rule, proto, id)->Ok_0;
            &&& ranges_valid(ranges)
            &&& rule.src_port_min is None && rule.src_port_max is None
            &&& rule.dst_port_min is Some || rule.dst_port_max is Some ==> proto == 6 || proto == 17
            &&& forall|port: int| #[trigger]
                ranges_cover(ranges, port) || ranges.len() == 0 <==> port_matches(rule, port)
        }),
{
    let ranges = rule_ranges(rule, proto, id)->Ok_0;
    if rule.dst_port_min is Some || rule.dst_port_max is Some {
        let min = if rule.dst_port_min is Some {
            rule.dst_port_min->0
        } else {
            rule.dst_port_max->0
        };
        let max = if rule.dst_port_max is Some {
            rule.dst_port_max->0
        } else {
            rule.dst_port_min->0
        };
        let text = range_text((min, max));
        lemma_range_part((min, max));
        lemma_pieces_single(text, ',');
        let parts = pieces(text, ',');
        let none = Seq::<(u16, u16)>::empty();
        assert(ranges_from(parts, 1, none.push((min, max))) == Ok::<Seq<(u16, u16)>, Seq<char>>(
            none.push((min, max)),
        ));
        assert(ranges == none.push((min, max)));
        assert forall|port: int| #[trigger] ranges_cover(ranges, port) <==> min <= port <= max by {
            if min <= port <= max {
                assert(ranges[0].0 <= port <= ranges[0].1);
            }
        }
    }
}

proof fn lemma_canonical(rule: NeutronAclRuleSnapshotModel, index: nat)
    requires
        canonical_rule(rule, index) is Ok,
    ensures
        ({
            let read = canonical_rule(rule, index)->Ok_0;
            &&& forall|hook: u8| #[trigger]
                read.directions.contains(hook) <==> hook_matches(rule, hook)
            &&& forall|proto: u8|
                #![trigger proto_matches(rule, proto)]
                read.proto == 0 || read.proto == proto <==> proto_matches(rule, proto)
            &&& read.action == 1 <==> drops(rule)
            &&& read.action == 0 <==> passes(rule)
            &&& drops(rule) || passes(rule)
            &&& read.priority == rule.priority
            &&& read.direction == word(rule.direction, "ingress"@)
            &&& ranges_valid(read.ports)
            &&& forall|port: int| #[trigger]
                ranges_cover(read.ports, port) || read.ports.len() == 0 <==> port_matches(
                    rule,
                    port,
                )
            &&& all_valid(read.src_cidrs)
            &&& all_valid(read.dst_cidrs)
            &&& forall|a: int| #[trigger]
                selector_covers(read.src_cidrs, a) || read.src_cidrs.len() == 0
                    <==> address_matches(rule.src_cidrs, a)
            &&& forall|a: int| #[trigger]
                selector_covers(read.dst_cidrs, a) || read.dst_cidrs.len() == 0
                    <==> address_matches(rule.dst_cidrs, a)
        }),
{
    lemma_words();
    let read = canonical_rule(rule, index)->Ok_0;
    lemma_cidrs(rule.src_cidrs, read.id);
    lemma_cidrs(rule.dst_cidrs, read.id);
    lemma_ranges(rule, read.proto, read.id);
    assert(!seq![0u8].contains(1u8) && seq![0u8][0] == 0);
    assert forall|hook: u8| #[trigger] read.directions.contains(hook) <==> hook_matches(
        rule,
        hook,
    ) by {
        assert(seq![0u8, 1u8][0] == 0 && seq![0u8, 1u8][1] == 1);
        assert(seq![0u8][0] == 0 && seq![1u8][0] == 1);
        if read.directions.contains(hook) {
            let i = choose|i: int| 0 <= i < read.directions.len() && read.directions[i] == hook;
        }
        if hook_matches(rule, hook) {
            if word(rule.direction, "ingress"@) == "both"@ {
                assert(read.directions == seq![0u8, 1u8]);
                assert(read.directions[hook as int] == hook);
            } else {
                assert(read.directions[0] == hook);
            }
        }
    }
    assert forall|proto: u8|
        #![trigger proto_matches(rule, proto)]
        read.proto == 0 || read.proto == proto <==> proto_matches(rule, proto) by {}
}

/// A rule is read as it is written: it acts on the hooks that its direction names, on the protocol
/// and the ports that it names, with the action that it names, and keeps its priority. The hooks
/// of a rule for egress and of a rule for ingress have nothing in common.
pub proof fn rules_are_read_as_written(rule: NeutronAclRuleSnapshotModel, index: nat)
    requires
        canonical_rule(rule, index) is Ok,
    ensures
        ({
            let read = canonical_rule(rule, index)->Ok_0;
            let way = word(rule.direction, "ingress"@);
            &&& way == "egress"@ ==> read.directions == seq![0u8]
            &&& way == "ingress"@ ==> read.directions == seq![1u8]
            &&& way == "both"@ ==> read.directions == seq![0u8, 1u8]
            &&& way == "egress"@ || way == "ingress"@ || way == "both"@
            &&& read.direction == way
            &&& read.priority == rule.priority
            &&& drops(rule) ==> read.action == 1
            &&& passes(rule) ==> read.action == 0
            &&& drops(rule) || passes(rule)
            &&& forall|proto: u8|
                #![trigger proto_matches(rule, proto)]
                read.proto == 0 || read.proto == proto <==> proto_matches(rule, proto)
            &&& forall|port: int| #[trigger]
                ranges_cover(read.ports, port) || read.ports.len() == 0 <==> port_matches(
                    rule,
                    port,
                )
            &&& forall|a: int| #[trigger]
                selector_covers(read.src_cidrs, a) || read.src_cidrs.len() == 0
                    <==> address_matches(rule.src_cidrs, a)
            &&& forall|a: int| #[trigger]
                selector_covers(read.dst_cidrs, a) || read.dst_cidrs.len() == 0
                    <==> address_matches(rule.dst_cidrs, a)
        }),
{
    lemma_words();
    lemma_canonical(rule, index);
}

/// Rules that cannot be told apart by the datapath are refused: rules for another family of
/// addresses, with source ports, with ports of a protocol that has none, with a range that ends
/// before it starts, or with a word or a network that cannot be read. All others are read.
pub proof fn readable_rules_are_read(rule: NeutronAclRuleSnapshotModel, index: nat)
    ensures
        ({
            let way = word(rule.direction, "ingress"@);
            let name = word(rule.protocol, "any"@);
            let ported = rule.dst_port_min is Some || rule.dst_port_max is Some;
            canonical_rule(rule, index) is Ok <==> {
                &&& !(rule.ethertype matches Some(family) && lowered(family) == lowered("IPv6"@))
                &&& way == "egress"@ || way == "ingress"@ || way == "both"@
                &&& name == "any"@ || name == "icmp"@ || name == "tcp"@ || name == "udp"@
                &&& drops(rule) || passes(rule)
                &&& forall|i: int|
                    0 <= i < rule.src_cidrs.len() ==> !(#[trigger] rule.src_cidrs[i]).contains(':')
                        && cidr_value(rule.src_cidrs[i]) is Some
                &&& forall|i: int|
                    0 <= i < rule.dst_cidrs.len() ==> !(#[trigger] rule.dst_cidrs[i]).contains(':')
                        && cidr_value(rule.dst_cidrs[i]) is Some
                &&& rule.src_port_min is None && rule.src_port_max is None
                &&& ported ==> name == "tcp"@ || name == "udp"@
                &&& rule.dst_port_min is Some && rule.dst_port_max is Some ==> rule.dst_port_min->0
                    <= rule.dst_port_max->0
            }
        }),
{
    lemma_words();
    lemma_readable_cidrs(rule.src_cidrs, rule_name(rule.id, index));
    lemma_readable_cidrs(rule.dst_cidrs, rule_name(rule.id, index));
    if rule.dst_port_min is Some || rule.dst_port_max is Some {
        let min = if rule.dst_port_min is Some {
            rule.dst_port_min->0
        } else {
            rule.dst_port_max->0
        };
        let max = if rule.dst_port_max is Some {
            rule.dst_port_max->0
        } else {
            rule.dst_port_min->0
        };
        if min <= max {
            let text = range_text((min, max));
            lemma_range_part((min, max));
            lemma_pieces_single(text, ',');
            let parts = pieces(text, ',');
            let none = Seq::<(u16, u16)>::empty();
            assert(ranges_from(parts, 1, none.push((min, max))) is Ok);
            assert(ranges_value(text) is Ok);
        }
    }
}

proof fn lemma_readable_cidrs(cidrs: Seq<Seq<char>>, id: Seq<char>)
    ensures
        cidrs_value(cidrs, id) is Ok <==> forall|i: int|
            0 <= i < cidrs.len() ==> !(#[trigger] cidrs[i]).contains(':') && cidr_value(cidrs[i])
                is Some,
{
    let colon = |i: int| cidrs[i].contains(':');
    let invalid = |i: int| cidr_value(cidrs[i]) is None;
    lemma_first_from_found(cidrs.len() as int, 0, colon);
    lemma_first_from_found(cidrs.len() as int, 0, invalid);
    assert(first_colon(cidrs) < cidrs.len() ==> colon(first_colon(cidrs)));
    assert(first_invalid(cidrs) < cidrs.len() ==> invalid(first_invalid(cidrs)));
    if cidrs_value(cidrs, id) is Ok {
        assert forall|i: int| 0 <= i < cidrs.len() implies !(#[trigger] cidrs[i]).contains(':')
            && cidr_value(cidrs[i]) is Some by {
            assert(!colon(i));
            assert(!invalid(i));
        }
    }
}

proof fn lemma_canonical_from(
    rules: Seq<NeutronAclRuleSnapshotModel>,
    i: int,
    parsed: Seq<CanonicalAclRuleModel>,
)
    requires
        0 <= i <= rules.len(),
        parsed.len() == i,
        forall|k: int|
            0 <= k < i ==> canonical_rule(rules[k], k as nat) == Ok::<
                CanonicalAclRuleModel,
                Seq<char>,
            >(#[trigger] parsed[k]),
    ensures
        canonical_from(rules, i, parsed) matches Ok(all) ==> all.len() == rules.len() && forall|
            k: int,
        |
            0 <= k < rules.len() ==> canonical_rule(rules[k], k as nat) == Ok::<
                CanonicalAclRuleModel,
                Seq<char>,
            >(#[trigger] all[k]),
    decreases rules.len() - i,
{
    if i < rules.len() {
        if let Ok(rule) = canonical_rule(rules[i], i as nat) {
            lemma_canonical_from(rules, i + 1, parsed.push(rule));
        }
    }
}

proof fn lemma_table_size(selectors: Seq<Seq<CidrModel>>)
    ensures
        selector_table(selectors).len() <= selectors.len() + 1,
{
    lemma_table(selectors);
    let named = selector_table(selectors).skip(1);
    assert(named.no_duplicates()) by {
        assert forall|i: int, j: int|
            0 <= i < named.len() && 0 <= j < named.len() && i != j implies named[i] != named[j] by {
            assert(named[i] == selector_table(selectors)[i + 1]);
            assert(named[j] == selector_table(selectors)[j + 1]);
        }
    }
    named.unique_seq_to_set();
    selectors.lemma_cardinality_of_set();
    assert(named.to_set().subset_of(selectors.to_set())) by {
        assert forall|s: Seq<CidrModel>| #[trigger] named.to_set().contains(
            s,
        ) implies selectors.to_set().contains(s) by {
            let i = named.index_of(s);
            assert(named[i] == selector_table(selectors)[i + 1]);
            assert(selectors.contains(s));
        }
    }
    vstd::set_lib::lemma_len_subset(named.to_set(), selectors.to_set());
}

/// The groups of one side of a plan stand for its selectors.
proof fn lemma_group(
    port_id: Seq<char>,
    plan: AclApplyPlanModel,
    src: Seq<Seq<CidrModel>>,
    dst: Seq<Seq<CidrModel>>,
    on_src: bool,
    id: AclSelectorId,
    address: int,
)
    requires
        plan.groups == table_groups(port_id, "src"@, src) + table_groups(port_id, "dst"@, dst),
        src.len() <= usize::MAX,
        dst.len() <= usize::MAX,
        ({
            let table = if on_src {
                src
            } else {
                dst
            };
            &&& id.0 < table.len()
            &&& id.0 > 0 <==> table[id.0 as int].len() > 0
            &&& all_valid(table[id.0 as int])
        }),
    ensures
        ({
            let table = if on_src {
                src
            } else {
                dst
            };
            let side = if on_src {
                "src"@
            } else {
                "dst"@
            };
            group_matches(plan, group_name(port_id, side, id), address) <==> (id.0 == 0
                || selector_covers(table[id.0 as int], address))
        }),
{
    reveal_strlit("any");
    reveal_strlit("neutron:");
    reveal_strlit("src");
    reveal_strlit("dst");
    let table = if on_src {
        src
    } else {
        dst
    };
    let side = if on_src {
        "src"@
    } else {
        "dst"@
    };
    let name = group_name(port_id, side, id);
    let src_groups = table_groups(port_id, "src"@, src);
    let dst_groups = table_groups(port_id, "dst"@, dst);
    let prefix = acl_prefix(port_id);
    if id.0 > 0 {
        let selector = table[id.0 as int];
        let place = if on_src {
            id.0 - 1
        } else {
            src_groups.len() + id.0 - 1
        };
        assert(prefix[0] == 'n');
        assert(name[0] == 'n');
        assert("any"@[0] == 'a');
        assert(name[prefix.len() as int] == side[0]);
        assert(plan.groups[place].name == name);
        let texts = plan.groups[place].cidrs;
        assert(texts.len() == selector.len());
        assert forall|i: int| 0 <= i < selector.len() implies cidr_value(#[trigger] texts[i])
            == Some(selector[i]) by {
            assert(selector[i].valid());
            assert(texts[i] == cidr_text(selector[i]));
            cidr_text_reads_back(selector[i]);
        }
        assert(address_matches(texts, address) <==> selector_covers(selector, address)) by {
            if address_matches(texts, address) {
                let i = choose|i: int|
                    0 <= i < texts.len() && (cidr_value(#[trigger] texts[i]) matches Some(network)
                        && network.covers(address));
                assert(selector[i].covers(address));
            }
            if selector_covers(selector, address) {
                let i = choose|i: int|
                    0 <= i < selector.len() && (#[trigger] selector[i]).covers(address);
                assert(cidr_value(texts[i]) == Some(selector[i]));
            }
        }
        assert forall|g: int| 0 <= g < plan.groups.len() && (#[trigger] plan.groups[g]).name
            == name implies g == place by {
            if g < src_groups.len() {
                let other = AclSelectorId((g + 1) as usize);
                assert(plan.groups[g].name == group_name(port_id, "src"@, other));
                assert(group_name(port_id, "src"@, other)[prefix.len() as int] == 's');
                if on_src {
                    lemma_group_name(port_id, side, other, id);
                }
            } else {
                let other = AclSelectorId((g - src_groups.len() + 1) as usize);
                assert(plan.groups[g] == dst_groups[g - src_groups.len()]);
                assert(plan.groups[g].name == group_name(port_id, "dst"@, other));
                assert(group_name(port_id, "dst"@, other)[prefix.len() as int] == 'd');
                if !on_src {
                    lemma_group_name(port_id, side, other, id);
                }
            }
        }
    }
}

/// The rules that an ACL was planned from.
spec fn planned_rules(acl: NeutronAclSnapshotModel) -> Seq<CanonicalAclRuleModel> {
    canonical_from(acl.rules, 0, Seq::empty())->Ok_0
}

proof fn lemma_planned(acl: NeutronAclSnapshotModel, r: int)
    requires
        canonical_from(acl.rules, 0, Seq::empty()) is Ok,
        acl.rules.len() < usize::MAX,
        0 <= r < acl.rules.len(),
    ensures
        ({
            let rules = planned_rules(acl);
            let interned = interned_rules(rules);
            let src = selector_table(src_of(rules));
            let dst = selector_table(dst_of(rules));
            &&& rules.len() == acl.rules.len()
            &&& interned.len() == acl.rules.len()
            &&& src.len() <= usize::MAX
            &&& dst.len() <= usize::MAX
            &&& canonical_rule(acl.rules[r], r as nat) == Ok::<CanonicalAclRuleModel, Seq<char>>(
                rules[r],
            )
            &&& interned[r].directions == rules[r].directions
            &&& interned[r].direction == rules[r].direction
            &&& interned[r].priority == rules[r].priority
            &&& interned[r].proto == rules[r].proto
            &&& interned[r].action == rules[r].action
            &&& interned[r].ports == rules[r].ports
            &&& interned[r].src_selector_id.0 < src.len()
            &&& interned[r].dst_selector_id.0 < dst.len()
            &&& src[interned[r].src_selector_id.0 as int] == rules[r].src_cidrs
            &&& dst[interned[r].dst_selector_id.0 as int] == rules[r].dst_cidrs
            &&& interned[r].src_selector_id.0 > 0 <==> rules[r].src_cidrs.len() > 0
            &&& interned[r].dst_selector_id.0 > 0 <==> rules[r].dst_cidrs.len() > 0
            &&& ranges_valid(interned[r].ports)
        }),
{
    lemma_canonical_from(acl.rules, 0, Seq::empty());
    let rules = planned_rules(acl);
    lemma_table_size(src_of(rules));
    lemma_table_size(dst_of(rules));
    lemma_table(src_of(rules));
    lemma_table(dst_of(rules));
    interned_selectors_resolve(rules, r);
    lemma_canonical(acl.rules[r], r as nat);
    let src = selector_table(src_of(rules));
    let dst = selector_table(dst_of(rules));
    let s = interned_rules(rules)[r].src_selector_id.0;
    let d = interned_rules(rules)[r].dst_selector_id.0;
    assert(canonical_rule(acl.rules[r], r as nat) == Ok::<CanonicalAclRuleModel, Seq<char>>(
        rules[r],
    ));
    if s > 0 {
        assert(src[s as int].len() > 0);
    }
    if d > 0 {
        assert(dst[d as int].len() > 0);
    }
}

/// The plan of an ACL does to every packet what the rules of the ACL say: a packet is dropped by a
/// policy exactly where a rule that drops is about it, and passed by a policy exactly where a rule
/// that lets pass is. Nothing is in the plan besides.
pub proof fn plans_do_what_the_rules_say(
    port_id: Seq<char>,
    acl: NeutronAclSnapshotModel,
    packet: Packet,
)
    requires
        acl.enabled,
        lowered(acl.status) == lowered("ready"@),
        lowered(acl.effective_action) == lowered("enforce"@),
        translation(port_id, acl, validation(acl)) is Ok,
        translation(port_id, acl, validation(acl))->Ok_0.force_bypass_reason is None,
    ensures
        ({
            let plan = translation(port_id, acl, validation(acl))->Ok_0;
            &&& plan.conntrack_enabled == Some(acl.stateful)
            &&& (exists|i: int|
                0 <= i < plan.policies.len() && policy_matches(
                    plan,
                    #[trigger] plan.policies[i],
                    packet,
                ) && plan.policies[i].action == 1) <==> exists|r: int|
                0 <= r < acl.rules.len() && rule_matches(#[trigger] acl.rules[r], packet) && drops(
                    acl.rules[r],
                )
            &&& (exists|i: int|
                0 <= i < plan.policies.len() && policy_matches(
                    plan,
                    #[trigger] plan.policies[i],
                    packet,
                ) && plan.policies[i].action == 0) <==> exists|r: int|
                0 <= r < acl.rules.len() && rule_matches(#[trigger] acl.rules[r], packet)
                    && passes(acl.rules[r])
            &&& forall|i: int|
                0 <= i < plan.policies.len() && policy_matches(
                    plan,
                    #[trigger] plan.policies[i],
                    packet,
                ) ==> plan.policies[i].action == 0 || plan.policies[i].action == 1
        }),
{
    lemma_words();
    let plan = translation(port_id, acl, validation(acl))->Ok_0;
    let rules = planned_rules(acl);
    let interned = interned_rules(rules);
    let src = selector_table(src_of(rules));
    let dst = selector_table(dst_of(rules));
    lemma_canonical_from(acl.rules, 0, Seq::empty());
    assert forall|r: int| 0 <= r < interned.len() implies ranges_valid(
        (#[trigger] interned[r]).ports,
    ) by {
        lemma_planned(acl, r);
    }
    plans_enforce_the_rules(port_id, acl.stateful, interned, src, dst);
    assert(plan == rendered(port_id, acl.stateful, interned, src, dst)->Ok_0);
    // From a rule to its policy.
    assert forall|r: int| 0 <= r < acl.rules.len() && rule_matches(
        #[trigger] acl.rules[r],
        packet,
    ) implies exists|i: int|
        0 <= i < plan.policies.len() && policy_matches(plan, #[trigger] plan.policies[i], packet)
            && plan.policies[i].action == rules[r].action by {
        lemma_planned(acl, r);
        lemma_canonical(acl.rules[r], r as nat);
        assert(rules[r].directions.contains(packet.hook));
        let e = rules[r].directions.index_of(packet.hook);
        assert(interned[r].directions[e] == packet.hook);
        let i = choose|i: int|
            0 <= i < plan.policies.len() && policy_of_rule(
                port_id,
                interned[r],
                interned[r].directions[e],
                #[trigger] plan.policies[i],
            );
        assert(ranges_cover(rules[r].ports, packet.port) || rules[r].ports.len() == 0);
        assert(rule_covers(interned[r], packet.port));
        assert(ports_cover(plan.policies[i].ports, packet.port));
        lemma_rule_groups(port_id, acl, plan, r, packet.src);
        lemma_rule_groups(port_id, acl, plan, r, packet.dst);
        assert(policy_matches(plan, plan.policies[i], packet));
    }
    // From a policy to a rule.
    assert forall|i: int| 0 <= i < plan.policies.len() && policy_matches(
        plan,
        #[trigger] plan.policies[i],
        packet,
    ) implies exists|r: int|
        0 <= r < acl.rules.len() && rule_matches(#[trigger] acl.rules[r], packet)
            && plan.policies[i].action == rules[r].action by {
        assert(ports_cover(plan.policies[i].ports, packet.port));
        let (r, e) = choose|r: int, e: int|
            0 <= r < interned.len() && 0 <= e < interned[r].directions.len() && policy_of_rule(
                port_id,
                interned[r],
                #[trigger] interned[r].directions[e],
                plan.policies[i],
            ) && rule_covers(interned[r], packet.port);
        lemma_planned(acl, r);
        lemma_canonical(acl.rules[r], r as nat);
        assert(rules[r].directions.contains(packet.hook));
        assert(ranges_cover(rules[r].ports, packet.port) || rules[r].ports.len() == 0);
        lemma_rule_groups(port_id, acl, plan, r, packet.src);
        lemma_rule_groups(port_id, acl, plan, r, packet.dst);
        assert(rule_matches(acl.rules[r], packet));
    }
    assert forall|r: int| 0 <= r < acl.rules.len() implies (rules[r].action == 1 <==> drops(
        #[trigger] acl.rules[r],
    )) && (rules[r].action == 0 <==> passes(acl.rules[r])) && (rules[r].action == 0
        || rules[r].action == 1) by {
        lemma_planned(acl, r);
        lemma_canonical(acl.rules[r], r as nat);
    }
}

proof fn lemma_rule_groups(
    port_id: Seq<char>,
    acl: NeutronAclSnapshotModel,
    plan: AclApplyPlanModel,
    r: int,
    address: int,
)
    requires
        canonical_from(acl.rules, 0, Seq::empty()) is Ok,
        acl.rules.len() < usize::MAX,
        0 <= r < acl.rules.len(),
        plan.groups == table_groups(port_id, "src"@, selector_table(src_of(planned_rules(acl))))
            + table_groups(port_id, "dst"@, selector_table(dst_of(planned_rules(acl)))),
    ensures
        ({
            let rule = interned_rules(planned_rules(acl))[r];
            &&& group_matches(plan, group_name(port_id, "src"@, rule.src_selector_id), address)
                <==> address_matches(acl.rules[r].src_cidrs, address)
            &&& group_matches(plan, group_name(port_id, "dst"@, rule.dst_selector_id), address)
                <==> address_matches(acl.rules[r].dst_cidrs, address)
        }),
{
    let rules = planned_rules(acl);
    let rule = interned_rules(rules)[r];
    let src = selector_table(src_of(rules));
    let dst = selector_table(dst_of(rules));
    lemma_planned(acl, r);
    lemma_rule_addresses(acl.rules[r], r as nat, rules[r], address);
    lemma_group(port_id, plan, src, dst, true, rule.src_selector_id, address);
    lemma_group(port_id, plan, src, dst, false, rule.dst_selector_id, address);
}

proof fn lemma_rule_addresses(
    rule: NeutronAclRuleSnapshotModel,
    index: nat,
    read: CanonicalAclRuleModel,
    address: int,
)
    requires
        canonical_rule(rule, index) == Ok::<CanonicalAclRuleModel, Seq<char>>(read),
    ensures
        all_valid(read.src_cidrs),
        all_valid(read.dst_cidrs),
        (read.src_cidrs.len() == 0 || selector_covers(read.src_cidrs, address)) == address_matches(
            rule.src_cidrs,
            address,
        ),
        (read.dst_cidrs.len() == 0 || selector_covers(read.dst_cidrs, address)) == address_matches(
            rule.dst_cidrs,
            address,
        ),
{
    lemma_cidrs(rule.src_cidrs, read.id);
    lemma_cidrs(rule.dst_cidrs, read.id);
}

/// The hooks that a direction stands for: a direction that names egress stands for hook 0 alone,
/// one that names ingress for hook 1 alone, and one that names both for both. So the hooks of
/// egress and of ingress have nothing in common, and together they are the hooks of both.
pub proof fn directions_stand_for_their_hooks(name: Seq<char>, hook: u8)
    ensures
        ({
            let hooks = datapath_directions(direction_value(name)->0);
            let sorted = sorted_directions(direction_value(name)->0);
            let way = lowered(name);
            &&& direction_value(name) is Some <==> way == "egress"@ || way == "ingress"@ || way
                == "both"@
            &&& way == "egress"@ ==> (hooks.contains(hook) <==> hook == 0)
            &&& way == "ingress"@ ==> (hooks.contains(hook) <==> hook == 1)
            &&& way == "both"@ ==> (hooks.contains(hook) <==> hook == 0 || hook == 1)
            &&& direction_value(name) is Some ==> (sorted.contains(hook) <==> hooks.contains(hook))
            &&& direction_value(name) is Some ==> direction_name(direction_value(name)->0) == way
            &&& forall|i: int, j: int|
                0 <= i < j < sorted.len() ==> #[trigger] sorted[i] < #[trigger] sorted[j]
        }),
{
    lemma_words();
    assert(seq![0u8][0] == 0 && seq![1u8][0] == 1);
    assert(seq![1u8, 0u8][0] == 1 && seq![1u8, 0u8][1] == 0);
    assert(seq![0u8, 1u8][0] == 0 && seq![0u8, 1u8][1] == 1);
}

/// True when two rules leave open what becomes of a packet, or cannot be kept apart: they share a
/// direction and a priority; they name different networks that have an address in common; or they
/// act on the same traffic, and differ in what they do to it, or in the ports that they do it for.
pub open spec fn ambiguous(a: CanonicalAclRuleModel, b: CanonicalAclRuleModel) -> bool {
    ||| a.direction == b.direction && a.priority == b.priority
    ||| a.src_cidrs != b.src_cidrs && exists|x: int| #[trigger]
        selector_covers(a.src_cidrs, x) && selector_covers(b.src_cidrs, x)
    ||| a.dst_cidrs != b.dst_cidrs && exists|x: int| #[trigger]
        selector_covers(a.dst_cidrs, x) && selector_covers(b.dst_cidrs, x)
    ||| {
        &&& exists|hook: u8| #[trigger] a.directions.contains(hook) && b.directions.contains(hook)
        &&& a.proto == 0 || b.proto == 0 || a.proto == b.proto
        &&& a.src_cidrs == b.src_cidrs || a.src_cidrs.len() == 0 || b.src_cidrs.len() == 0
        &&& a.dst_cidrs == b.dst_cidrs || a.dst_cidrs.len() == 0 || b.dst_cidrs.len() == 0
        &&& a.action != b.action || (a.ports != b.ports && !(a.proto == b.proto && a.src_cidrs
            == b.src_cidrs && a.dst_cidrs == b.dst_cidrs))
    }
}

proof fn lemma_interned(rules: Seq<CanonicalAclRuleModel>, r: int)
    requires
        rules.len() < usize::MAX,
        0 <= r < rules.len(),
    ensures
        ({
            let interned = interned_rules(rules);
            let src = selector_table(src_of(rules));
            let dst = selector_table(dst_of(rules));
            &&& interned.len() == rules.len()
            &&& src.len() <= usize::MAX
            &&& dst.len() <= usize::MAX
            &&& interned[r].directions == rules[r].directions
            &&& interned[r].direction == rules[r].direction
            &&& interned[r].priority == rules[r].priority
            &&& interned[r].proto == rules[r].proto
            &&& interned[r].action == rules[r].action
            &&& interned[r].ports == rules[r].ports
            &&& interned[r].src_selector_id.0 < src.len()
            &&& interned[r].dst_selector_id.0 < dst.len()
            &&& src[interned[r].src_selector_id.0 as int] == rules[r].src_cidrs
            &&& dst[interned[r].dst_selector_id.0 as int] == rules[r].dst_cidrs
            &&& interned[r].src_selector_id.0 > 0 <==> rules[r].src_cidrs.len() > 0
            &&& interned[r].dst_selector_id.0 > 0 <==> rules[r].dst_cidrs.len() > 0
        }),
{
    lemma_table_size(src_of(rules));
    lemma_table_size(dst_of(rules));
    lemma_table(src_of(rules));
    lemma_table(dst_of(rules));
    interned_selectors_resolve(rules, r);
    let src = selector_table(src_of(rules));
    let dst = selector_table(dst_of(rules));
    let s = interned_rules(rules)[r].src_selector_id.0;
    let d = interned_rules(rules)[r].dst_selector_id.0;
    if s > 0 {
        assert(src[s as int].len() > 0);
    }
    if d > 0 {
        assert(dst[d as int].len() > 0);
    }
}

/// The places of two selectors are the same exactly where the selectors are.
proof fn lemma_same_selector(rules: Seq<CanonicalAclRuleModel>, r: int, s: int)
    requires
        rules.len() < usize::MAX,
        0 <= r < rules.len(),
        0 <= s < rules.len(),
    ensures
        ({
            let interned = interned_rules(rules);
            &&& interned[r].src_selector_id == interned[s].src_selector_id <==> rules[r].src_cidrs
                == rules[s].src_cidrs
            &&& interned[r].dst_selector_id == interned[s].dst_selector_id <==> rules[r].dst_cidrs
                == rules[s].dst_cidrs
        }),
{
    lemma_interned(rules, r);
    lemma_interned(rules, s);
}

proof fn lemma_meeting(rules: Seq<CanonicalAclRuleModel>, r: int, s: int)
    requires
        rules.len() < usize::MAX,
        0 <= r < rules.len(),
        0 <= s < rules.len(),
    ensures
        ({
            let a = rules[r];
            let b = rules[s];
            let left = interned_rules(rules)[r];
            let right = interned_rules(rules)[s];
            &&& rules_meet(left, right) <==> {
                &&& exists|hook: u8| #[trigger]
                    a.directions.contains(hook) && b.directions.contains(hook)
                &&& a.proto == 0 || b.proto == 0 || a.proto == b.proto
                &&& a.src_cidrs == b.src_cidrs || a.src_cidrs.len() == 0 || b.src_cidrs.len() == 0
                &&& a.dst_cidrs == b.dst_cidrs || a.dst_cidrs.len() == 0 || b.dst_cidrs.len() == 0
            }
            &&& rules_agree(left, right) <==> !(a.action != b.action || (a.ports != b.ports && !(
            a.proto == b.proto && a.src_cidrs == b.src_cidrs && a.dst_cidrs == b.dst_cidrs)))
        }),
{
    lemma_interned(rules, r);
    lemma_interned(rules, s);
    lemma_same_selector(rules, r, s);
    let a = rules[r].directions;
    let b = rules[s].directions;
    if directions_meet(a, b) {
        let i = choose|i: int| 0 <= i < a.len() && b.contains(#[trigger] a[i]);
        assert(a.contains(a[i]));
    }
    if exists|hook: u8| #[trigger] a.contains(hook) && b.contains(hook) {
        let hook = choose|hook: u8| #[trigger] a.contains(hook) && b.contains(hook);
        let i = a.index_of(hook);
        assert(b.contains(a[i]));
    }
}

proof fn lemma_used(ids: Seq<AclSelectorId>, places: nat, k: int)
    requires
        0 <= k < ids.len() <= usize::MAX,
        0 < ids[k].0 < places,
    ensures
        first_uses(ids, places)[ids[k].0 as int] is Some,
{
    let p = |i: int| ids[i].0 == ids[k].0 as int;
    lemma_first_from_found(ids.len() as int, 0, p);
    assert(p(k));
}

/// Rules that pass the checks are clear: none has a negative priority, and no two of them are
/// ambiguous.
pub proof fn accepted_rules_are_clear(rules: Seq<CanonicalAclRuleModel>, r: int, s: int)
    requires
        rules.len() < usize::MAX,
        rules_template(rules) is Ready,
        0 <= r < rules.len(),
        0 <= s < rules.len(),
        r != s,
    ensures
        rules[r].priority >= 0,
        !ambiguous(rules[r], rules[s]),
{
    let interned = interned_rules(rules);
    let src = selector_table(src_of(rules));
    let dst = selector_table(dst_of(rules));
    lemma_interned(rules, r);
    lemma_interned(rules, s);
    lemma_same_selector(rules, r, s);
    lemma_meeting(rules, r, s);
    lemma_meeting(rules, s, r);
    lemma_no_priority_fault(interned, 0);
    lemma_keys_distinct(interned);
    assert(priority_fault(interned, r) is None);
    let ordered = priority_order(interned);
    let a = lemma_order_place(interned, r);
    let b = lemma_order_place(interned, s);
    if r < s {
        assert(rule_key(interned[r]) != rule_key(interned[s]));
    } else {
        assert(rule_key(interned[s]) != rule_key(interned[r]));
    }
    lemma_order_size(interned);
    lemma_used_pair(rules, a, b, r, s);
    accepted_selectors_are_disjoint(
        interned,
        src,
        dst,
        interned[r].src_selector_id.0 as int,
        interned[s].src_selector_id.0 as int,
    );
    accepted_selectors_are_disjoint(
        interned,
        src,
        dst,
        interned[r].dst_selector_id.0 as int,
        interned[s].dst_selector_id.0 as int,
    );
    if rules_meet(interned[r], interned[s]) {
        if a < b {
            accepted_rules_agree(interned, src, dst, a, b);
        } else {
            accepted_rules_agree(interned, src, dst, b, a);
        }
    }
}

proof fn lemma_order_size(rules: Seq<NormalizedAclRuleModel>)
    requires
        rules.len() < usize::MAX,
    ensures
        priority_order(rules).len() <= rules.len(),
        forall|k: int|
            0 <= k < priority_order(rules).len() ==> rules.contains(
                #[trigger] priority_order(rules)[k],
            ),
{
    let keys = rule_keys(rules);
    let images = rules.map_values(|rule: NormalizedAclRuleModel| rule_key(rule));
    assert(keys =~= images.to_set()) by {
        assert forall|k: (Seq<char>, i64)| keys.contains(k) <==> images.to_set().contains(k) by {
            if keys.contains(k) {
                let i = choose|i: int| 0 <= i < rules.len() && rule_key(#[trigger] rules[i]) == k;
                assert(images[i] == k);
            }
            if images.contains(k) {
                let i = images.index_of(k);
                assert(rule_key(rules[i]) == k);
            }
        }
    }
    images.lemma_cardinality_of_set();
    lemma_in_order::<(String, i64)>(keys);
    let order = in_order::<(String, i64)>(keys);
    assert(order.no_duplicates()) by {
        assert forall|i: int, j: int|
            0 <= i < order.len() && 0 <= j < order.len() && i != j implies order[i] != order[j] by {
            <(String, i64) as Key>::irreflexive(order[i]);
        }
    }
    order.unique_seq_to_set();
    assert(order.to_set() =~= keys);
    assert forall|k: int| 0 <= k < priority_order(rules).len() implies rules.contains(
        #[trigger] priority_order(rules)[k],
    ) by {
        let key = order[k];
        assert(order.contains(key));
        assert(keys.contains(key));
        let i = choose|i: int| 0 <= i < rules.len() && rule_key(#[trigger] rules[i]) == key;
        let p = |i: int| rule_key(rules[i]) == key;
        lemma_first_from_found(rules.len() as int, 0, p);
        assert(p(i));
    }
}

proof fn lemma_used_pair(rules: Seq<CanonicalAclRuleModel>, a: int, b: int, r: int, s: int)
    requires
        rules.len() < usize::MAX,
        0 <= r < rules.len(),
        0 <= s < rules.len(),
        0 <= a < priority_order(interned_rules(rules)).len(),
        0 <= b < priority_order(interned_rules(rules)).len(),
        priority_order(interned_rules(rules))[a] == interned_rules(rules)[r],
        priority_order(interned_rules(rules))[b] == interned_rules(rules)[s],
    ensures
        ({
            let interned = interned_rules(rules);
            let ordered = priority_order(interned);
            let src = selector_table(src_of(rules));
            let dst = selector_table(dst_of(rules));
            let i = interned[r].src_selector_id.0 as int;
            let j = interned[s].src_selector_id.0 as int;
            let k = interned[r].dst_selector_id.0 as int;
            let m = interned[s].dst_selector_id.0 as int;
            &&& rules[r].src_cidrs != rules[s].src_cidrs && (exists|x: int| #[trigger]
                selector_covers(rules[r].src_cidrs, x) && selector_covers(rules[s].src_cidrs, x))
                ==> selectors_overlap(src, first_uses(src_ids(ordered), src.len()), i, j)
            &&& rules[r].dst_cidrs != rules[s].dst_cidrs && (exists|x: int| #[trigger]
                selector_covers(rules[r].dst_cidrs, x) && selector_covers(rules[s].dst_cidrs, x))
                ==> selectors_overlap(dst, first_uses(dst_ids(ordered), dst.len()), k, m)
        }),
{
    let interned = interned_rules(rules);
    let ordered = priority_order(interned);
    let src = selector_table(src_of(rules));
    let dst = selector_table(dst_of(rules));
    lemma_interned(rules, r);
    lemma_interned(rules, s);
    lemma_same_selector(rules, r, s);
    lemma_order_size(interned);
    if rules[r].src_cidrs != rules[s].src_cidrs && (exists|x: int| #[trigger]
        selector_covers(rules[r].src_cidrs, x) && selector_covers(rules[s].src_cidrs, x)) {
        assert(rules[r].src_cidrs.len() > 0 && rules[s].src_cidrs.len() > 0);
        assert(src_ids(ordered)[a] == interned[r].src_selector_id);
        assert(src_ids(ordered)[b] == interned[s].src_selector_id);
        lemma_used(src_ids(ordered), src.len(), a);
        lemma_used(src_ids(ordered), src.len(), b);
    }
    if rules[r].dst_cidrs != rules[s].dst_cidrs && (exists|x: int| #[trigger]
        selector_covers(rules[r].dst_cidrs, x) && selector_covers(rules[s].dst_cidrs, x)) {
        assert(rules[r].dst_cidrs.len() > 0 && rules[s].dst_cidrs.len() > 0);
        assert(dst_ids(ordered)[a] == interned[r].dst_selector_id);
        assert(dst_ids(ordered)[b] == interned[s].dst_selector_id);
        lemma_used(dst_ids(ordered), dst.len(), a);
        lemma_used(dst_ids(ordered), dst.len(), b);
    }
}

/// No packet is both dropped and let pass: of rules that pass the checks, all that are about one
/// packet do the same to it.
pub proof fn accepted_rules_never_contradict(
    acl: NeutronAclSnapshotModel,
    packet: Packet,
    r: int,
    s: int,
)
    requires
        validation(acl) is Template,
        validation(acl)->Template_0 is Ready,
        0 <= r < acl.rules.len(),
        0 <= s < acl.rules.len(),
        rule_matches(acl.rules[r], packet),
        rule_matches(acl.rules[s], packet),
    ensures
        drops(acl.rules[r]) == drops(acl.rules[s]),
        passes(acl.rules[r]) == passes(acl.rules[s]),
{
    if r != s {
        let rules = planned_rules(acl);
        lemma_canonical_from(acl.rules, 0, Seq::empty());
        lemma_planned(acl, r);
        lemma_planned(acl, s);
        lemma_canonical(acl.rules[r], r as nat);
        lemma_canonical(acl.rules[s], s as nat);
        accepted_rules_are_clear(rules, r, s);
        assert(rules[r].directions.contains(packet.hook));
        assert(rules[s].directions.contains(packet.hook));
        assert(proto_matches(acl.rules[r], packet.proto));
        assert(proto_matches(acl.rules[s], packet.proto));
        lemma_rule_addresses(acl.rules[r], r as nat, rules[r], packet.src);
        lemma_rule_addresses(acl.rules[r], r as nat, rules[r], packet.dst);
        lemma_rule_addresses(acl.rules[s], s as nat, rules[s], packet.src);
        lemma_rule_addresses(acl.rules[s], s as nat, rules[s], packet.dst);
    }
}

proof fn lemma_found_pair(
    rules: Seq<NormalizedAclRuleModel>,
    candidate: Option<(usize, usize, bool)>,
    i: int,
    j: int,
) -> (pair: (int, int))
    requires
        first_pair_reason(rules, candidate, i, j) is Some,
        0 <= i < j,
    ensures
        0 <= pair.0 < pair.1 < rules.len(),
        pair_reason(rules, candidate, pair.0, pair.1) is Some,
    decreases rules.len() - i, rules.len() - j,
{
    if j >= rules.len() {
        lemma_found_pair(rules, candidate, i + 1, i + 2)
    } else if pair_reason(rules, candidate, i, j) is Some {
        (i, j)
    } else {
        lemma_found_pair(rules, candidate, i, j + 1)
    }
}

proof fn lemma_found_fault(rules: Seq<NormalizedAclRuleModel>, i: int) -> (k: int)
    requires
        0 <= i,
        first_priority_fault(rules, i) is Some,
    ensures
        0 <= k < rules.len(),
        priority_fault(rules, k) is Some,
    decreases rules.len() - i,
{
    if priority_fault(rules, i) is Some {
        i
    } else {
        lemma_found_fault(rules, i + 1)
    }
}

proof fn lemma_used_by(ids: Seq<AclSelectorId>, places: nat, s: int) -> (k: int)
    requires
        0 <= s < places,
        first_uses(ids, places)[s] is Some,
    ensures
        0 <= k < ids.len(),
        ids[k].0 == s,
{
    let p = |i: int| ids[i].0 == s;
    lemma_first_from_found(ids.len() as int, 0, p);
    first_from(ids.len() as int, 0, p)
}

/// Rules are set aside only for a reason: one of them has a negative priority, or two of them are
/// ambiguous.
pub proof fn only_unclear_rules_are_set_aside(rules: Seq<CanonicalAclRuleModel>)
    requires
        rules.len() < usize::MAX,
        rules_template(rules) is ForceBypass,
    ensures
        (exists|r: int| 0 <= r < rules.len() && (#[trigger] rules[r]).priority < 0) || (exists|
            r: int,
            s: int,
        |
            0 <= r < rules.len() && 0 <= s < rules.len() && r != s && ambiguous(
                #[trigger] rules[r],
                #[trigger] rules[s],
            )),
{
    let interned = interned_rules(rules);
    let src = selector_table(src_of(rules));
    let dst = selector_table(dst_of(rules));
    if first_priority_fault(interned, 0) is Some {
        let k = lemma_found_fault(interned, 0);
        lemma_interned(rules, k);
        if rules[k].priority >= 0 {
            let p = |i: int| rule_key(interned[i]) == rule_key(interned[k]);
            lemma_first_from_found(k, 0, p);
            let first = first_from(k, 0, p);
            lemma_interned(rules, first);
            assert(rule_key(interned[first]) == rule_key(interned[k]));
            assert(ambiguous(rules[first], rules[k]));
        }
    } else {
        let ordered = priority_order(interned);
        let candidate = rules_candidate(ordered, src, dst);
        lemma_order_size(interned);
        let (i, j) = lemma_found_pair(ordered, candidate, 0, 1);
        if rules_meet(ordered[i], ordered[j]) && !rules_agree(ordered[i], ordered[j]) {
            let r = interned.index_of(ordered[i]);
            let s = interned.index_of(ordered[j]);
            assert(interned.contains(ordered[i]) && interned.contains(ordered[j]));
            lemma_meeting(rules, r, s);
            assert(r != s);
            assert(ambiguous(rules[r], rules[s]));
        } else {
            assert(candidate is Some);
            if best_overlap(src, first_uses(src_ids(ordered), src.len())) is Some {
                let uses = first_uses(src_ids(ordered), src.len());
                let (k, m) = choose|k: int, m: int| #[trigger] selectors_overlap(src, uses, k, m);
                let a = lemma_used_by(src_ids(ordered), src.len(), k);
                let b = lemma_used_by(src_ids(ordered), src.len(), m);
                assert(interned.contains(ordered[a]) && interned.contains(ordered[b]));
                let r = interned.index_of(ordered[a]);
                let s = interned.index_of(ordered[b]);
                lemma_interned(rules, r);
                lemma_interned(rules, s);
                lemma_table(src_of(rules));
                assert(src[k] == rules[r].src_cidrs && src[m] == rules[s].src_cidrs);
                assert(src[k] != src[m]);
                assert(ambiguous(rules[r], rules[s]));
            } else {
                let uses = first_uses(dst_ids(ordered), dst.len());
                let (k, m) = choose|k: int, m: int| #[trigger] selectors_overlap(dst, uses, k, m);
                let a = lemma_used_by(dst_ids(ordered), dst.len(), k);
                let b = lemma_used_by(dst_ids(ordered), dst.len(), m);
                assert(interned.contains(ordered[a]) && interned.contains(ordered[b]));
                let r = interned.index_of(ordered[a]);
                let s = interned.index_of(ordered[b]);
                lemma_interned(rules, r);
                lemma_interned(rules, s);
                lemma_table(dst_of(rules));
                assert(dst[k] == rules[r].dst_cidrs && dst[m] == rules[s].dst_cidrs);
                assert(dst[k] != dst[m]);
                assert(ambiguous(rules[r], rules[s]));
            }
        }
    }
}

proof fn lemma_limits(rules: Seq<NeutronAclRuleSnapshotModel>, i: int)
    requires
        0 <= i <= rules.len(),
    ensures
        rules_limit_reason(rules, i) is Some <==> exists|r: int|
            i <= r < rules.len() && ((#[trigger] rules[r]).src_cidrs.len() > 2048
                || rules[r].dst_cidrs.len() > 2048),
    decreases rules.len() - i,
{
    if i < rules.len() {
        lemma_limits(rules, i + 1);
        if rules[i].src_cidrs.len() > 2048 || rules[i].dst_cidrs.len() > 2048 {
            assert(rule_limit_reason(rules[i], i as nat) is Some);
        }
    }
}

/// True when an ACL is too large for the datapath: more than 1000 rules, or a rule with more than
/// 2048 networks on one side.
pub open spec fn too_large(acl: NeutronAclSnapshotModel) -> bool {
    acl.rules.len() > 1000 || exists|r: int|
        0 <= r < acl.rules.len() && ((#[trigger] acl.rules[r]).src_cidrs.len() > 2048
            || acl.rules[r].dst_cidrs.len() > 2048)
}

proof fn lemma_canonical_from_fails(
    rules: Seq<NeutronAclRuleSnapshotModel>,
    i: int,
    parsed: Seq<CanonicalAclRuleModel>,
)
    requires
        0 <= i <= rules.len(),
    ensures
        canonical_from(rules, i, parsed) is Err <==> exists|k: int|
            i <= k < rules.len() && canonical_rule(#[trigger] rules[k], k as nat) is Err,
    decreases rules.len() - i,
{
    if i < rules.len() {
        if let Ok(rule) = canonical_rule(rules[i], i as nat) {
            lemma_canonical_from_fails(rules, i + 1, parsed.push(rule));
        }
    }
}

/// An ACL is refused where its default action does not let traffic pass, or a rule of it cannot be
/// read; it is set aside, and its port left alone, where it is too large or its rules are unclear;
/// it is enforced otherwise. Size is looked at before the rules are read.
pub proof fn acls_are_refused_or_set_aside_for_a_reason(acl: NeutronAclSnapshotModel)
    ensures
        ({
            let action = lowered(trimmed(acl.default_action));
            let open = action.len() == 0 || action == "allow"@ || action == "accept"@ || action
                == "pass"@;
            let unreadable = exists|k: int|
                0 <= k < acl.rules.len() && canonical_rule(#[trigger] acl.rules[k], k as nat)
                    is Err;
            let checked = validation(acl);
            &&& checked is Refused <==> !open || (!too_large(acl) && unreadable)
            &&& open && too_large(acl) ==> checked->Template_0 is ForceBypass
            &&& open && !too_large(acl) && !unreadable ==> checked == ValidationModel::Template(
                rules_template(canonical_from(acl.rules, 0, Seq::empty())->Ok_0),
            )
        }),
{
    lemma_limits(acl.rules, 0);
    lemma_canonical_from_fails(acl.rules, 0, Seq::empty());
}

/// Only an ACL that is switched on, ready and to be enforced reaches the datapath; any other leaves
/// the port without groups and policies. Whether connections are tracked is told in any case.
pub proof fn only_enforced_acls_are_planned(
    port_id: Seq<char>,
    acl: NeutronAclSnapshotModel,
    checked: ValidationModel,
)
    ensures
        ({
            let plan = translation(port_id, acl, checked);
            let enforced = acl.enabled && lowered(acl.status) == lowered("ready"@) && lowered(
                acl.effective_action,
            ) == lowered("enforce"@);
            &&& !enforced ==> {
                &&& plan is Ok
                &&& plan->Ok_0.groups.len() == 0
                &&& plan->Ok_0.policies.len() == 0
                &&& plan->Ok_0.force_bypass_reason is None
            }
            &&& plan is Ok ==> plan->Ok_0.conntrack_enabled == Some(acl.stateful)
            &&& enforced && checked is Refused ==> plan == Err::<AclApplyPlanModel, Seq<char>>(
                checked->Refused_0,
            )
            &&& enforced && checked is Template && checked->Template_0 is ForceBypass ==> {
                &&& plan is Ok
                &&& plan->Ok_0.force_bypass_reason == Some(checked->Template_0->ForceBypass_0)
                &&& plan->Ok_0.groups.len() == 0
                &&& plan->Ok_0.policies.len() == 0
            }
        }),
{
}

/// Accepted rules are ordered by direction, and within one by priority.
pub proof fn rules_are_ordered_by_priority(rules: Seq<NormalizedAclRuleModel>, i: int, j: int)
    requires
        rules.len() < usize::MAX,
        0 <= i < j < priority_order(rules).len(),
    ensures
        ({
            let a = priority_order(rules)[i];
            let b = priority_order(rules)[j];
            &&& a.direction == b.direction ==> a.priority < b.priority
            &&& a.direction != b.direction ==> text_before(a.direction, b.direction)
        }),
{
    lemma_order_size(rules);
    let keys = rule_keys(rules);
    let images = rules.map_values(|rule: NormalizedAclRuleModel| rule_key(rule));
    assert(keys.subset_of(images.to_set())) by {
        assert forall|k: (Seq<char>, i64)| keys.contains(k) implies images.to_set().contains(
            k,
        ) by {
            let r = choose|r: int| 0 <= r < rules.len() && rule_key(#[trigger] rules[r]) == k;
            assert(images[r] == k);
        }
    }
    vstd::seq_lib::seq_to_set_is_finite(images);
    vstd::set_lib::lemma_set_subset_finite(images.to_set(), keys);
    lemma_in_order::<(String, i64)>(keys);
    let order = in_order::<(String, i64)>(keys);
    assert forall|k: int| 0 <= k < order.len() implies rule_key(
        #[trigger] priority_order(rules)[k],
    ) == order[k] by {
        assert(order.contains(order[k]));
        let r = choose|r: int| 0 <= r < rules.len() && rule_key(#[trigger] rules[r]) == order[k];
        let p = |r: int| rule_key(rules[r]) == order[k];
        lemma_first_from_found(rules.len() as int, 0, p);
        assert(p(r));
    }
    assert(rule_key(priority_order(rules)[i]) == order[i]);
    assert(rule_key(priority_order(rules)[j]) == order[j]);
    assert(<(String, i64) as Key>::precedes(order[i], order[j]));
}

/// Where two rules cannot be told apart the first such pair is named, with the rule that comes first
/// in the order named first, and the side on which their networks overlap, if that is the reason.
pub proof fn the_first_unclear_pair_is_named(
    rules: Seq<NormalizedAclRuleModel>,
    src_table: Seq<Seq<CidrModel>>,
    dst_table: Seq<Seq<CidrModel>>,
)
    requires
        first_priority_fault(rules, 0) is None,
        overlap_reason(rules, src_table, dst_table) is Some,
    ensures
        exists|i: int, j: int| #[trigger]
            named_pair(
                priority_order(rules),
                overlap_reason(rules, src_table, dst_table)->0,
                i,
                j,
            ),
{
    let ordered = priority_order(rules);
    let candidate = rules_candidate(ordered, src_table, dst_table);
    let pair = lemma_first_pair(ordered, candidate, 0, 1);
    assert(named_pair(
        ordered,
        overlap_reason(rules, src_table, dst_table)->0,
        pair.0,
        pair.1,
    ));
}

/// True when a reason names a pair of rules, and no earlier pair acts on the same traffic and
/// differs in what it does.
pub open spec fn named_pair(
    ordered: Seq<NormalizedAclRuleModel>,
    reason: Seq<char>,
    i: int,
    j: int,
) -> bool {
    let pair = ordered[i].id + ":"@ + signed_decimal(ordered[i].priority as int) + ":"@
        + ordered[j].id + ":"@ + signed_decimal(ordered[j].priority as int);
    &&& 0 <= i < j < ordered.len()
    &&& {
        ||| reason == "unsupported_acl_cidr_overlap:"@ + "src"@ + ":"@ + pair
        ||| reason == "unsupported_acl_cidr_overlap:"@ + "dst"@ + ":"@ + pair
        ||| reason == "unsupported_acl_priority_overlap:"@ + pair && rules_meet(
            ordered[i],
            ordered[j],
        ) && !rules_agree(ordered[i], ordered[j])
    }
    &&& forall|a: int, b: int|
        0 <= a < b < ordered.len() && (a < i || (a == i && b < j)) ==> !rules_meet(
            #[trigger] ordered[a],
            #[trigger] ordered[b],
        ) || rules_agree(ordered[a], ordered[b])
}

proof fn lemma_first_pair(
    rules: Seq<NormalizedAclRuleModel>,
    candidate: Option<(usize, usize, bool)>,
    i: int,
    j: int,
) -> (pair: (int, int))
    requires
        first_pair_reason(rules, candidate, i, j) is Some,
        0 <= i < j,
        forall|a: int, b: int|
            0 <= a < b < rules.len() && (a < i || (a == i && b < j)) ==> !rules_meet(
                #[trigger] rules[a],
                #[trigger] rules[b],
            ) || rules_agree(rules[a], rules[b]),
    ensures
        0 <= pair.0 < pair.1 < rules.len(),
        pair_reason(rules, candidate, pair.0, pair.1) == first_pair_reason(rules, candidate, i, j),
        forall|a: int, b: int|
            0 <= a < b < rules.len() && (a < pair.0 || (a == pair.0 && b < pair.1)) ==> !rules_meet(
                #[trigger] rules[a],
                #[trigger] rules[b],
            ) || rules_agree(rules[a], rules[b]),
    decreases rules.len() - i, rules.len() - j,
{
    if j >= rules.len() {
        lemma_first_pair(rules, candidate, i + 1, i + 2)
    } else if pair_reason(rules, candidate, i, j) is Some {
        (i, j)
    } else {
        lemma_first_pair(rules, candidate, i, j + 1)
    }
}

/// A rule goes by its own name, with every character that a name may not hold replaced, or by its
/// place where it has none.
pub proof fn rules_go_by_their_names(rule: NeutronAclRuleSnapshotModel, index: nat, i: int)
    requires
        canonical_rule(rule, index) is Ok,
    ensures
        ({
            let id = canonical_rule(rule, index)->Ok_0.id;
            let named = rule.id matches Some(text) && trimmed(text).len() > 0;
            &&& named ==> id.len() == rule.id->0.len()
            &&& named && 0 <= i < id.len() ==> {
                let c = rule.id->0[i];
                let kept = ('0' <= c && c <= '9') || ('A' <= c && c <= 'Z') || ('a' <= c && c
                    <= 'z') || c == '-' || c == '_' || c == '.';
                id[i] == if kept {
                    c
                } else {
                    '_'
                }
            }
            &&& !named ==> id == "rule"@ + decimal(index)
        }),
{
}

/// A rule that is refused is refused by its name, and for the first thing about it that cannot be
/// read: the family of its addresses, its networks, its protocol, its action, its direction, and its
/// ports.
pub proof fn refused_rules_say_why(rule: NeutronAclRuleSnapshotModel, index: nat)
    ensures
        ({
            let read = canonical_rule(rule, index);
            let id = rule_name(rule.id, index);
            let foreign = rule.ethertype matches Some(family) && lowered(family) == lowered(
                "IPv6"@,
            );
            let networks = cidrs_value(rule.src_cidrs, id) is Ok && cidrs_value(rule.dst_cidrs, id)
                is Ok;
            let name = word(rule.protocol, "any"@);
            let known = name == "any"@ || name == "icmp"@ || name == "tcp"@ || name == "udp"@;
            let spelled_proto = trimmed(
                match rule.protocol {
                    Some(t) => t,
                    None => "any"@,
                },
            );
            let spelled_action = trimmed(
                match rule.action {
                    Some(t) => t,
                    None => "allow"@,
                },
            );
            let spelled_way = trimmed(
                match rule.direction {
                    Some(t) => t,
                    None => "ingress"@,
                },
            );
            let way = word(rule.direction, "ingress"@);
            let acts = drops(rule) || passes(rule);
            &&& foreign ==> read is Err && read->Err_0 == "rule "@ + id
                + " uses IPv6 ethertype; unsupported"@
            &&& !foreign && cidrs_value(rule.src_cidrs, id) is Err ==> read is Err && read->Err_0
                == cidrs_value(rule.src_cidrs, id)->Err_0
            &&& !foreign && cidrs_value(rule.src_cidrs, id) is Ok && cidrs_value(rule.dst_cidrs, id)
                is Err ==> read is Err && read->Err_0 == cidrs_value(rule.dst_cidrs, id)->Err_0
            &&& !foreign && networks && !known ==> read is Err && read->Err_0 == "rule "@ + id
                + " "@ + "protocol"@ + ": "@ + ("unknown "@ + "protocol"@ + ": "@ + spelled_proto)
            &&& !foreign && networks && known && !acts ==> read is Err && read->Err_0 == "rule "@
                + id + " "@ + "action"@ + ": "@ + ("unknown "@ + "action"@ + ": "@ + spelled_action)
            &&& !foreign && networks && known && acts && way != "egress"@ && way != "ingress"@ && way
                != "both"@ ==> read is Err && read->Err_0 == "rule "@ + id + " "@ + "direction"@
                + ": "@ + ("unknown "@ + "direction"@ + ": "@ + spelled_way)
        }),
{
    lemma_words();
}

proof fn lemma_first_too_large(rules: Seq<NeutronAclRuleSnapshotModel>, i: int, r: int)
    requires
        0 <= i <= r < rules.len(),
        forall|k: int|
            0 <= k < r ==> (#[trigger] rules[k]).src_cidrs.len() <= 2048 && rules[k].dst_cidrs.len()
                <= 2048,
    ensures
        rules_limit_reason(rules, i) == rules_limit_reason(rules, r),
    decreases r - i,
{
    if i < r {
        assert(rule_limit_reason(rules[i], i as nat) is None);
        lemma_first_too_large(rules, i + 1, r);
    }
}

/// An ACL that is too large is set aside with its size and the limit: that of its rules, or that of
/// the first side of the first rule that has too many networks.
pub proof fn too_large_acls_say_where(rules: Seq<NeutronAclRuleSnapshotModel>, r: int)
    requires
        0 <= r < rules.len(),
        forall|k: int|
            0 <= k < r ==> (#[trigger] rules[k]).src_cidrs.len() <= 2048 && rules[k].dst_cidrs.len()
                <= 2048,
    ensures
        ({
            let head = "acl_selector_member_limit_exceeded:"@;
            let id = rule_name(rules[r].id, r as nat);
            &&& rules.len() > 1000 ==> limit_reason(rules) == Some(
                "acl_rule_limit_exceeded:"@ + decimal(rules.len()) + ":"@ + decimal(1000),
            )
            &&& rules.len() <= 1000 && rules[r].src_cidrs.len() > 2048 ==> limit_reason(rules)
                == Some(
                head + "src"@ + ":"@ + id + ":"@ + decimal(rules[r].src_cidrs.len()) + ":"@
                    + decimal(2048),
            )
            &&& rules.len() <= 1000 && rules[r].src_cidrs.len() <= 2048 && rules[r].dst_cidrs.len()
                > 2048 ==> limit_reason(rules) == Some(
                head + "dst"@ + ":"@ + id + ":"@ + decimal(rules[r].dst_cidrs.len()) + ":"@
                    + decimal(2048),
            )
        }),
{
    lemma_first_too_large(rules, 0, r);
}

} // verus!
