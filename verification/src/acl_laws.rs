//! What holds of every ACL that is planned.

use crate::acl_cidr::CidrModel;
use crate::acl_overlap::{
    dst_ids, first_priority_fault, first_uses, first_with_key, keys_distinct, lemma_first_from,
    lemma_first_from_found, lemma_scan_none, overlap_reason, priority_fault, priority_order,
    rule_key, rule_keys, rules_candidate, rules_meet, src_ids,
};
use crate::acl_plan::{
    acl_enforced, add_directions, add_policy, add_rules, canonical_from, empty_plan, group_name,
    policy_key, rendered, rules_template, table_groups, translation, validation, AclApplyPlanModel,
    AclEffectivePolicyKey, AclPolicyPlanModel, PolicyKeyModel, ValidationModel,
};
use crate::acl_ports::{
    merged_ports, merged_ports_unite, merged_ranges, merged_ranges_cover_the_same_ports,
    ranges_cover, ranges_text, ranges_text_reads_back, ranges_valid, ranges_value,
    read_ranges_are_valid, serialized_ranges, sorted_ranges,
};
use crate::acl_rules::{acl_prefix, canonical_rule, rule_ports};
use crate::acl_selector::{
    best_overlap, dst_of, interned_rules, interned_selectors_resolve, is_best_overlap, pair_before,
    rule_pair, selector_table, selectors_overlap, src_of, AclSelectorId, CanonicalAclRuleModel,
    NormalizedAclRuleModel,
};
use crate::model::{NeutronAclRuleSnapshotModel, NeutronAclSnapshotModel};
use crate::ordered::{in_order, lemma_in_order};
use crate::text::{decimal, lemma_decimal_digits, signed_decimal};
use vstd::prelude::*;

verus! {

proof fn lemma_best_exists(
    selectors: Seq<Seq<CidrModel>>,
    first_rules: Seq<Option<usize>>,
    i: int,
    j: int,
) -> (pair: (usize, usize))
    requires
        selectors_overlap(selectors, first_rules, i, j),
    ensures
        is_best_overlap(selectors, first_rules, pair),
    decreases rule_pair(first_rules, i, j).0, rule_pair(first_rules, i, j).1,
{
    let pair = rule_pair(first_rules, i, j);
    if exists|k: int, m: int| #[trigger]
        selectors_overlap(selectors, first_rules, k, m) && pair_before(
            rule_pair(first_rules, k, m),
            pair,
        ) {
        let (k, m) = choose|k: int, m: int| #[trigger]
            selectors_overlap(selectors, first_rules, k, m) && pair_before(
                rule_pair(first_rules, k, m),
                pair,
            );
        lemma_best_exists(selectors, first_rules, k, m)
    } else {
        pair
    }
}

proof fn lemma_first_use(ids: Seq<AclSelectorId>, places: nat, s: int) -> (first: int)
    requires
        0 <= s < places,
        first_uses(ids, places)[s] is Some,
    ensures
        0 <= first < ids.len(),
        ids[first].0 == s,
        first_uses(ids, places)[s] == Some(first as usize),
{
    let p = |i: int| ids[i].0 == s;
    lemma_first_from_found(ids.len() as int, 0, p);
    crate::acl_rules::first_from(ids.len() as int, 0, p)
}

proof fn lemma_overlap_pair(table: Seq<Seq<CidrModel>>, ids: Seq<AclSelectorId>, i: int, j: int)
    requires
        ids.len() <= usize::MAX,
        selectors_overlap(table, first_uses(ids, table.len()), i, j),
    ensures
        best_overlap(table, first_uses(ids, table.len())) is Some,
        ({
            let pair = best_overlap(table, first_uses(ids, table.len()))->0;
            pair.0 < pair.1 < ids.len()
        }),
{
    let firsts = first_uses(ids, table.len());
    let best = lemma_best_exists(table, firsts, i, j);
    let pair = best_overlap(table, firsts)->0;
    assert(is_best_overlap(table, firsts, pair));
    let (k, m) = choose|k: int, m: int| #[trigger]
        selectors_overlap(table, firsts, k, m) && rule_pair(firsts, k, m) == pair;
    let a = lemma_first_use(ids, table.len(), k);
    let b = lemma_first_use(ids, table.len(), m);
}

/// In rules that are accepted no two different selectors in use have an address in common, on
/// either side.
pub proof fn accepted_selectors_are_disjoint(
    rules: Seq<NormalizedAclRuleModel>,
    src_table: Seq<Seq<CidrModel>>,
    dst_table: Seq<Seq<CidrModel>>,
    i: int,
    j: int,
)
    requires
        overlap_reason(rules, src_table, dst_table) is None,
        priority_order(rules).len() <= usize::MAX,
    ensures
        !selectors_overlap(
            src_table,
            first_uses(src_ids(priority_order(rules)), src_table.len()),
            i,
            j,
        ),
        !selectors_overlap(
            dst_table,
            first_uses(dst_ids(priority_order(rules)), dst_table.len()),
            i,
            j,
        ),
{
    let ordered = priority_order(rules);
    let src = src_ids(ordered);
    let dst = dst_ids(ordered);
    let src_firsts = first_uses(src, src_table.len());
    let dst_firsts = first_uses(dst, dst_table.len());
    if selectors_overlap(src_table, src_firsts, i, j) || selectors_overlap(
        dst_table,
        dst_firsts,
        i,
        j,
    ) {
        if exists|k: int, m: int| #[trigger] selectors_overlap(src_table, src_firsts, k, m) {
            let (k, m) = choose|k: int, m: int| #[trigger]
                selectors_overlap(src_table, src_firsts, k, m);
            lemma_overlap_pair(src_table, src, k, m);
        }
        if exists|k: int, m: int| #[trigger] selectors_overlap(dst_table, dst_firsts, k, m) {
            let (k, m) = choose|k: int, m: int| #[trigger]
                selectors_overlap(dst_table, dst_firsts, k, m);
            lemma_overlap_pair(dst_table, dst, k, m);
        }
        let candidate = rules_candidate(ordered, src_table, dst_table);
        assert(candidate is Some);
        let (a, b, side) = candidate->0;
        lemma_scan_none(ordered, candidate, 0, 1, a as int, b as int);
    }
}

/// Where no priority fault is found there is none.
pub(crate) proof fn lemma_no_priority_fault(rules: Seq<NormalizedAclRuleModel>, i: int)
    requires
        0 <= i <= rules.len(),
        first_priority_fault(rules, i) is None,
    ensures
        forall|k: int| i <= k < rules.len() ==> #[trigger] priority_fault(rules, k) is None,
    decreases rules.len() - i,
{
    if i < rules.len() {
        lemma_no_priority_fault(rules, i + 1);
    }
}

/// Rules without a priority fault differ in direction or priority.
pub(crate) proof fn lemma_keys_distinct(rules: Seq<NormalizedAclRuleModel>)
    requires
        first_priority_fault(rules, 0) is None,
    ensures
        keys_distinct(rules, rules.len() as int),
{
    lemma_no_priority_fault(rules, 0);
    assert forall|i: int, j: int| 0 <= i < j < rules.len() implies rule_key(#[trigger] rules[i])
        != rule_key(#[trigger] rules[j]) by {
        assert(priority_fault(rules, j) is None);
        let p = |k: int| rule_key(rules[k]) == rule_key(rules[j]);
        lemma_first_from_found(j, 0, p);
        assert(first_with_key(rules, rule_key(rules[j]), j) == j);
        assert(!p(i));
    }
}

proof fn lemma_rule_keys_finite(rules: Seq<NormalizedAclRuleModel>)
    ensures
        rule_keys(rules).finite(),
{
    let keys = rule_keys(rules);
    let listed = rules.map_values(|rule: NormalizedAclRuleModel| rule_key(rule));
    assert(keys =~= listed.to_set()) by {
        assert forall|k: (Seq<char>, i64)| #[trigger] keys.contains(k) <==> listed.contains(k) by {
            if keys.contains(k) {
                let i = choose|i: int| 0 <= i < rules.len() && rule_key(#[trigger] rules[i]) == k;
                assert(listed[i] == k);
            }
            if listed.contains(k) {
                let i = choose|i: int| 0 <= i < listed.len() && listed[i] == k;
                assert(rule_key(rules[i]) == k);
            }
        }
    }
    vstd::seq_lib::seq_to_set_is_finite(listed);
}

/// Every accepted rule has its place in the order.
pub(crate) proof fn lemma_order_place(rules: Seq<NormalizedAclRuleModel>, r: int) -> (place: int)
    requires
        0 <= r < rules.len(),
        first_priority_fault(rules, 0) is None,
    ensures
        0 <= place < priority_order(rules).len(),
        priority_order(rules)[place] == rules[r],
{
    let keys = rule_keys(rules);
    let key = rule_key(rules[r]);
    lemma_keys_distinct(rules);
    lemma_rule_keys_finite(rules);
    lemma_in_order::<(String, i64)>(keys);
    let order = in_order::<(String, i64)>(keys);
    assert(keys.contains(key));
    assert(order.contains(key));
    let place = choose|place: int| 0 <= place < order.len() && order[place] == key;
    let p = |i: int| rule_key(rules[i]) == key;
    assert forall|k: int| 0 <= k < r implies !#[trigger] p(k) by {
        assert(rule_key(rules[k]) != rule_key(rules[r]));
    }
    lemma_first_from(rules.len() as int, 0, p, r);
    place
}

proof fn lemma_accepted_actions(
    rules: Seq<NormalizedAclRuleModel>,
    src_table: Seq<Seq<CidrModel>>,
    dst_table: Seq<Seq<CidrModel>>,
    r: int,
    s: int,
)
    requires
        overlap_reason(rules, src_table, dst_table) is None,
        0 <= r < rules.len(),
        0 <= s < rules.len(),
        rules_meet(rules[r], rules[s]),
        rules_meet(rules[s], rules[r]),
    ensures
        rules[r].action == rules[s].action,
{
    if r != s {
        let a = lemma_order_place(rules, r);
        let b = lemma_order_place(rules, s);
        lemma_keys_distinct(rules);
        assert(rule_key(rules[r]) != rule_key(rules[s]));
        if a < b {
            crate::acl_overlap::accepted_rules_agree(rules, src_table, dst_table, a, b);
        } else {
            crate::acl_overlap::accepted_rules_agree(rules, src_table, dst_table, b, a);
        }
    }
}

/// The name of a group tells its selector.
pub(crate) proof fn lemma_group_name(
    port_id: Seq<char>,
    side: Seq<char>,
    a: AclSelectorId,
    b: AclSelectorId,
)
    requires
        group_name(port_id, side, a) == group_name(port_id, side, b),
    ensures
        a == b,
{
    reveal_strlit("any");
    reveal_strlit("neutron:");
    let head = acl_prefix(port_id) + side + ":selector:"@;
    assert(head[0] == 'n');
    assert("any"@[0] == 'a');
    if a.0 != 0 && b.0 != 0 {
        let x = decimal((a.0 - 1) as nat);
        let y = decimal((b.0 - 1) as nat);
        assert((head + x).skip(head.len() as int) =~= x);
        assert((head + y).skip(head.len() as int) =~= y);
        lemma_decimal_digits((a.0 - 1) as nat);
        lemma_decimal_digits((b.0 - 1) as nat);
    } else if a.0 != 0 {
        assert((head + decimal((a.0 - 1) as nat))[0] == 'n');
    } else if b.0 != 0 {
        assert((head + decimal((b.0 - 1) as nat))[0] == 'n');
    }
}

/// True when a rule lets a packet for a port be matched.
pub open spec fn rule_covers(rule: NormalizedAclRuleModel, port: int) -> bool {
    rule.ports.len() == 0 || ranges_cover(rule.ports, port)
}

/// True when a policy with the given port list matches a packet for a port.
pub open spec fn ports_cover(ports: Option<Seq<char>>, port: int) -> bool {
    match ports {
        None => true,
        Some(text) => ranges_value(text) matches Ok(ranges) && ranges_cover(ranges, port),
    }
}

/// True when a port list is the notation of some ranges.
spec fn ports_sound(ports: Option<Seq<char>>) -> bool {
    ports is Some ==> exists|ranges: Seq<(u16, u16)>|
        ranges.len() > 0 && ranges_valid(ranges) && ports->0 == #[trigger] ranges_text(ranges)
}

proof fn lemma_rule_list(ranges: Seq<(u16, u16)>)
    requires
        ranges_valid(ranges),
    ensures
        ports_sound(serialized_ranges(ranges)),
        forall|port: int| #[trigger]
            ports_cover(serialized_ranges(ranges), port) <==> ranges.len() == 0 || ranges_cover(
                ranges,
                port,
            ),
{
    if ranges.len() > 0 {
        ranges_text_reads_back(ranges);
        merged_ranges_cover_the_same_ports(ranges);
        assert forall|port: int| #[trigger]
            ports_cover(serialized_ranges(ranges), port) <==> ranges_cover(ranges, port) by {
            assert(ranges_cover(merged_ranges(sorted_ranges(ranges)), port) <==> ranges_cover(
                ranges,
                port,
            ));
        }
    }
}

proof fn lemma_merged_list(existing: Option<Seq<char>>, ranges: Seq<(u16, u16)>)
    requires
        ports_sound(existing),
        ranges_valid(ranges),
    ensures
        ({
            let merged = merged_ports(existing, serialized_ranges(ranges));
            &&& merged is Ok
            &&& ports_sound(merged->Ok_0)
            &&& forall|port: int| #[trigger]
                ports_cover(merged->Ok_0, port) <==> ports_cover(existing, port) || ranges.len()
                    == 0 || ranges_cover(ranges, port)
        }),
{
    if existing is Some && ranges.len() > 0 {
        let known = choose|known: Seq<(u16, u16)>|
            known.len() > 0 && ranges_valid(known) && existing->0 == #[trigger] ranges_text(known);
        merged_ports_unite(known, ranges);
        lemma_rule_list(known);
        let both = merged_ranges(sorted_ranges(known)) + merged_ranges(sorted_ranges(ranges));
        lemma_rule_list(both);
        let merged = merged_ports(existing, serialized_ranges(ranges));
        assert(merged->Ok_0 == serialized_ranges(both));
        assert forall|port: int| #[trigger]
            ports_cover(merged->Ok_0, port) <==> ports_cover(existing, port) || ranges_cover(
                ranges,
                port,
            ) by {
            assert(ports_cover(serialized_ranges(both), port) <==> ranges_cover(both, port));
            assert(ports_cover(serialized_ranges(known), port) <==> ranges_cover(known, port));
        }
    }
}

/// True when the hook at `e` of the rule at `r` comes before the one at `d` of the rule at `n`.
spec fn done(rules: Seq<NormalizedAclRuleModel>, n: int, d: int, r: int, e: int) -> bool {
    &&& 0 <= r < rules.len()
    &&& 0 <= e < rules[r].directions.len()
    &&& r < n || (r == n && e < d)
}

/// The key of the policy of the hook at `e` of the rule at `r`.
spec fn key_at(
    port_id: Seq<char>,
    rules: Seq<NormalizedAclRuleModel>,
    r: int,
    e: int,
) -> PolicyKeyModel {
    policy_key(port_id, rules[r], rules[r].directions[e])
}

/// True when policies stand for all that was done so far, and for nothing else.
spec fn policies_of(
    policies: Map<PolicyKeyModel, AclPolicyPlanModel>,
    port_id: Seq<char>,
    rules: Seq<NormalizedAclRuleModel>,
    n: int,
    d: int,
) -> bool {
    &&& policies.dom().finite()
    &&& forall|r: int, e: int| #[trigger]
        done(rules, n, d, r, e) ==> policies.dom().contains(key_at(port_id, rules, r, e))
            && policies[key_at(port_id, rules, r, e)].action == rules[r].action
    &&& forall|key: PolicyKeyModel| #[trigger]
        policies.dom().contains(key) ==> {
            &&& policies[key].src_group == key.0.0
            &&& policies[key].dst_group == key.0.1
            &&& policies[key].proto == key.1.0
            &&& policies[key].direction == key.1.1
            &&& ports_sound(policies[key].ports)
            &&& exists|r: int, e: int| #[trigger]
                done(rules, n, d, r, e) && key_at(port_id, rules, r, e) == key
        }
    &&& forall|key: PolicyKeyModel, port: int|
        #![trigger ports_cover(policies[key].ports, port)]
        policies.dom().contains(key) ==> (ports_cover(policies[key].ports, port) <==> exists|
            r: int,
            e: int,
        | #[trigger]
            done(rules, n, d, r, e) && key_at(port_id, rules, r, e) == key && rule_covers(
                rules[r],
                port,
            ))
}

proof fn lemma_add_policy(
    policies: Map<PolicyKeyModel, AclPolicyPlanModel>,
    port_id: Seq<char>,
    rules: Seq<NormalizedAclRuleModel>,
    src_table: Seq<Seq<CidrModel>>,
    dst_table: Seq<Seq<CidrModel>>,
    n: int,
    d: int,
)
    requires
        overlap_reason(rules, src_table, dst_table) is None,
        forall|r: int| 0 <= r < rules.len() ==> ranges_valid((#[trigger] rules[r]).ports),
        0 <= n < rules.len(),
        0 <= d < rules[n].directions.len(),
        policies_of(policies, port_id, rules, n, d),
    ensures
        ({
            let more = add_policy(policies, port_id, rules[n], rules[n].directions[d]);
            &&& more is Ok
            &&& policies_of(more->Ok_0, port_id, rules, n, d + 1)
        }),
{
    let rule = rules[n];
    let direction = rule.directions[d];
    let key = key_at(port_id, rules, n, d);
    assert(ranges_valid(rules[n].ports));
    lemma_rule_list(rule.ports);
    if policies.dom().contains(key) {
        let (r, e) = choose|r: int, e: int| #[trigger]
            done(rules, n, d, r, e) && key_at(port_id, rules, r, e) == key;
        lemma_group_name(port_id, "src"@, rules[r].src_selector_id, rule.src_selector_id);
        lemma_group_name(port_id, "dst"@, rules[r].dst_selector_id, rule.dst_selector_id);
        assert(rules[r].directions[e] == direction);
        assert(rule.directions.contains(rules[r].directions[e]));
        assert(rules[r].directions.contains(rule.directions[d]));
        lemma_accepted_actions(rules, src_table, dst_table, r, n);
        lemma_merged_list(policies[key].ports, rule.ports);
    }
    let after = add_policy(policies, port_id, rule, direction)->Ok_0;
    assert forall|r: int, e: int| #[trigger] done(rules, n, d + 1, r, e) implies after.dom().contains(
        key_at(port_id, rules, r, e),
    ) && after[key_at(port_id, rules, r, e)].action == rules[r].action by {
        if !(r == n && e == d) {
            assert(done(rules, n, d, r, e));
        }
    }
    assert(done(rules, n, d + 1, n, d));
    assert forall|k: PolicyKeyModel| #[trigger] after.dom().contains(k) implies {
        &&& after[k].src_group == k.0.0
        &&& after[k].dst_group == k.0.1
        &&& after[k].proto == k.1.0
        &&& after[k].direction == k.1.1
        &&& ports_sound(after[k].ports)
        &&& exists|r: int, e: int| #[trigger]
            done(rules, n, d + 1, r, e) && key_at(port_id, rules, r, e) == k
    } by {
        if policies.dom().contains(k) {
            let (r, e) = choose|r: int, e: int| #[trigger]
                done(rules, n, d, r, e) && key_at(port_id, rules, r, e) == k;
            assert(done(rules, n, d + 1, r, e));
        }
    }
    assert forall|k: PolicyKeyModel, port: int|
        #![trigger ports_cover(after[k].ports, port)]
        after.dom().contains(k) implies (ports_cover(after[k].ports, port) <==> exists|
        r: int,
        e: int,
    | #[trigger]
        done(rules, n, d + 1, r, e) && key_at(port_id, rules, r, e) == k && rule_covers(
            rules[r],
            port,
        )) by {
        if policies.dom().contains(k) && ports_cover(policies[k].ports, port) {
            let (r, e) = choose|r: int, e: int| #[trigger]
                done(rules, n, d, r, e) && key_at(port_id, rules, r, e) == k && rule_covers(
                    rules[r],
                    port,
                );
            assert(done(rules, n, d + 1, r, e));
        }
        if exists|r: int, e: int| #[trigger]
            done(rules, n, d + 1, r, e) && key_at(port_id, rules, r, e) == k && rule_covers(
                rules[r],
                port,
            ) {
            let (r, e) = choose|r: int, e: int| #[trigger]
                done(rules, n, d + 1, r, e) && key_at(port_id, rules, r, e) == k && rule_covers(
                    rules[r],
                    port,
                );
            if !(r == n && e == d) {
                assert(done(rules, n, d, r, e));
                assert(policies.dom().contains(k));
                assert(ports_cover(policies[k].ports, port));
            }
        }
        if k == key {
            assert(ports_cover(serialized_ranges(rule.ports), port) <==> rule_covers(rule, port));
        }
    }
}

proof fn lemma_add_directions(
    policies: Map<PolicyKeyModel, AclPolicyPlanModel>,
    port_id: Seq<char>,
    rules: Seq<NormalizedAclRuleModel>,
    src_table: Seq<Seq<CidrModel>>,
    dst_table: Seq<Seq<CidrModel>>,
    n: int,
    d: int,
)
    requires
        overlap_reason(rules, src_table, dst_table) is None,
        forall|r: int| 0 <= r < rules.len() ==> ranges_valid((#[trigger] rules[r]).ports),
        0 <= n < rules.len(),
        0 <= d <= rules[n].directions.len(),
        policies_of(policies, port_id, rules, n, d),
    ensures
        ({
            let more = add_directions(policies, port_id, rules[n], d);
            &&& more is Ok
            &&& policies_of(more->Ok_0, port_id, rules, n, rules[n].directions.len() as int)
        }),
    decreases rules[n].directions.len() - d,
{
    if d < rules[n].directions.len() {
        lemma_add_policy(policies, port_id, rules, src_table, dst_table, n, d);
        let more = add_policy(policies, port_id, rules[n], rules[n].directions[d])->Ok_0;
        lemma_add_directions(more, port_id, rules, src_table, dst_table, n, d + 1);
    }
}

proof fn lemma_add_rules(
    policies: Map<PolicyKeyModel, AclPolicyPlanModel>,
    port_id: Seq<char>,
    rules: Seq<NormalizedAclRuleModel>,
    src_table: Seq<Seq<CidrModel>>,
    dst_table: Seq<Seq<CidrModel>>,
    n: int,
)
    requires
        overlap_reason(rules, src_table, dst_table) is None,
        forall|r: int| 0 <= r < rules.len() ==> ranges_valid((#[trigger] rules[r]).ports),
        0 <= n <= rules.len(),
        policies_of(policies, port_id, rules, n, 0),
    ensures
        ({
            let more = add_rules(policies, port_id, rules, n);
            &&& more is Ok
            &&& policies_of(more->Ok_0, port_id, rules, rules.len() as int, 0)
        }),
    decreases rules.len() - n,
{
    if n < rules.len() {
        lemma_add_directions(policies, port_id, rules, src_table, dst_table, n, 0);
        let more = add_directions(policies, port_id, rules[n], 0)->Ok_0;
        let d = rules[n].directions.len() as int;
        lemma_same_done(more, port_id, rules, n, d);
        lemma_add_rules(more, port_id, rules, src_table, dst_table, n + 1);
    }
}

proof fn lemma_same_done(
    policies: Map<PolicyKeyModel, AclPolicyPlanModel>,
    port_id: Seq<char>,
    rules: Seq<NormalizedAclRuleModel>,
    n: int,
    d: int,
)
    requires
        0 <= n < rules.len(),
        d == rules[n].directions.len(),
        policies_of(policies, port_id, rules, n, d),
    ensures
        policies_of(policies, port_id, rules, n + 1, 0),
{
    assert forall|r: int, e: int| #[trigger] done(rules, n + 1, 0, r, e) implies policies.dom().contains(
        key_at(port_id, rules, r, e),
    ) && policies[key_at(port_id, rules, r, e)].action == rules[r].action by {
        assert(done(rules, n, d, r, e));
    }
    assert forall|key: PolicyKeyModel| #[trigger] policies.dom().contains(key) implies exists|
        r: int,
        e: int,
    | #[trigger] done(rules, n + 1, 0, r, e) && key_at(port_id, rules, r, e) == key by {
        let (r, e) = choose|r: int, e: int| #[trigger]
            done(rules, n, d, r, e) && key_at(port_id, rules, r, e) == key;
        assert(done(rules, n + 1, 0, r, e));
    }
    assert forall|key: PolicyKeyModel, port: int|
        #![trigger ports_cover(policies[key].ports, port)]
        policies.dom().contains(key) implies (ports_cover(policies[key].ports, port) <==> exists|
        r: int,
        e: int,
    | #[trigger]
        done(rules, n + 1, 0, r, e) && key_at(port_id, rules, r, e) == key && rule_covers(
            rules[r],
            port,
        )) by {
        if ports_cover(policies[key].ports, port) {
            let (r, e) = choose|r: int, e: int| #[trigger]
                done(rules, n, d, r, e) && key_at(port_id, rules, r, e) == key && rule_covers(
                    rules[r],
                    port,
                );
            assert(done(rules, n + 1, 0, r, e));
        }
        if exists|r: int, e: int| #[trigger]
            done(rules, n + 1, 0, r, e) && key_at(port_id, rules, r, e) == key && rule_covers(
                rules[r],
                port,
            ) {
            let (r, e) = choose|r: int, e: int| #[trigger]
                done(rules, n + 1, 0, r, e) && key_at(port_id, rules, r, e) == key && rule_covers(
                    rules[r],
                    port,
                );
            assert(done(rules, n, d, r, e));
        }
    }
}

/// True when a policy is one of a rule for one of its hooks: it has the groups, the protocol and
/// the action of the rule.
pub open spec fn policy_of_rule(
    port_id: Seq<char>,
    rule: NormalizedAclRuleModel,
    direction: u8,
    policy: AclPolicyPlanModel,
) -> bool {
    &&& policy.src_group == group_name(port_id, "src"@, rule.src_selector_id)
    &&& policy.dst_group == group_name(port_id, "dst"@, rule.dst_selector_id)
    &&& policy.proto == rule.proto
    &&& policy.action == rule.action
    &&& policy.direction == direction
}

/// The plan of accepted rules enforces them all, and nothing else: every hook of every rule has
/// its policy, and a policy matches a packet for a port exactly where one of its rules does.
pub proof fn plans_enforce_the_rules(
    port_id: Seq<char>,
    stateful: bool,
    rules: Seq<NormalizedAclRuleModel>,
    src_table: Seq<Seq<CidrModel>>,
    dst_table: Seq<Seq<CidrModel>>,
)
    requires
        overlap_reason(rules, src_table, dst_table) is None,
        forall|r: int| 0 <= r < rules.len() ==> ranges_valid((#[trigger] rules[r]).ports),
    ensures
        rendered(port_id, stateful, rules, src_table, dst_table) is Ok,
        ({
            let plan = rendered(port_id, stateful, rules, src_table, dst_table)->Ok_0;
            &&& forall|r: int, e: int|
                0 <= r < rules.len() && 0 <= e < rules[r].directions.len() ==> exists|i: int|
                    0 <= i < plan.policies.len() && policy_of_rule(
                        port_id,
                        rules[r],
                        #[trigger] rules[r].directions[e],
                        #[trigger] plan.policies[i],
                    )
            &&& forall|i: int, port: int|
                0 <= i < plan.policies.len() ==> (#[trigger] ports_cover(
                    plan.policies[i].ports,
                    port,
                ) <==> exists|r: int, e: int|
                    0 <= r < rules.len() && 0 <= e < rules[r].directions.len() && policy_of_rule(
                        port_id,
                        rules[r],
                        #[trigger] rules[r].directions[e],
                        plan.policies[i],
                    ) && rule_covers(rules[r], port))
        }),
{
    let none = Map::<PolicyKeyModel, AclPolicyPlanModel>::empty();
    assert(policies_of(none, port_id, rules, 0, 0));
    lemma_add_rules(none, port_id, rules, src_table, dst_table, 0);
    let policies = add_rules(none, port_id, rules, 0)->Ok_0;
    let keys = in_order::<AclEffectivePolicyKey>(policies.dom());
    lemma_in_order::<AclEffectivePolicyKey>(policies.dom());
    let plan = rendered(port_id, stateful, rules, src_table, dst_table)->Ok_0;
    let n = rules.len() as int;
    assert forall|r: int, e: int|
        0 <= r < rules.len() && 0 <= e < rules[r].directions.len() implies exists|i: int|
        0 <= i < plan.policies.len() && policy_of_rule(
            port_id,
            rules[r],
            #[trigger] rules[r].directions[e],
            #[trigger] plan.policies[i],
        ) by {
        assert(done(rules, n, 0, r, e));
        let key = key_at(port_id, rules, r, e);
        assert(keys.contains(key));
        let i = choose|i: int| 0 <= i < keys.len() && keys[i] == key;
        assert(plan.policies[i] == policies[key]);
    }
    assert forall|i: int, port: int| 0 <= i < plan.policies.len() implies (#[trigger] ports_cover(
        plan.policies[i].ports,
        port,
    ) <==> exists|r: int, e: int|
        0 <= r < rules.len() && 0 <= e < rules[r].directions.len() && policy_of_rule(
            port_id,
            rules[r],
            #[trigger] rules[r].directions[e],
            plan.policies[i],
        ) && rule_covers(rules[r], port)) by {
        let key = keys[i];
        assert(keys.contains(key));
        assert(plan.policies[i] == policies[key]);
        if ports_cover(policies[key].ports, port) {
            let (r, e) = choose|r: int, e: int| #[trigger]
                done(rules, n, 0, r, e) && key_at(port_id, rules, r, e) == key && rule_covers(
                    rules[r],
                    port,
                );
            assert(policy_of_rule(port_id, rules[r], rules[r].directions[e], plan.policies[i]));
        }
        if exists|r: int, e: int|
            0 <= r < rules.len() && 0 <= e < rules[r].directions.len() && policy_of_rule(
                port_id,
                rules[r],
                #[trigger] rules[r].directions[e],
                plan.policies[i],
            ) && rule_covers(rules[r], port) {
            let (r, e) = choose|r: int, e: int|
                0 <= r < rules.len() && 0 <= e < rules[r].directions.len() && policy_of_rule(
                    port_id,
                    rules[r],
                    #[trigger] rules[r].directions[e],
                    plan.policies[i],
                ) && rule_covers(rules[r], port);
            assert(done(rules, n, 0, r, e));
            assert(key_at(port_id, rules, r, e) == key);
        }
    }
}

proof fn lemma_canonical_ports(
    rules: Seq<NeutronAclRuleSnapshotModel>,
    i: int,
    parsed: Seq<CanonicalAclRuleModel>,
)
    requires
        0 <= i <= rules.len(),
        forall|k: int| 0 <= k < parsed.len() ==> ranges_valid((#[trigger] parsed[k]).ports),
    ensures
        canonical_from(rules, i, parsed) matches Ok(all) ==> forall|k: int|
            0 <= k < all.len() ==> ranges_valid((#[trigger] all[k]).ports),
    decreases rules.len() - i,
{
    if i < rules.len() {
        match canonical_rule(rules[i], i as nat) {
            Err(error) => {},
            Ok(rule) => {
                match rule_ports(rules[i], rule.proto, rule.id) {
                    Ok(Some(ports)) => {
                        read_ranges_are_valid(ports);
                    },
                    _ => {},
                }
                assert(ranges_valid(rule.ports));
                lemma_canonical_ports(rules, i + 1, parsed.push(rule));
            },
        }
    }
}

/// Every ACL that is not refused has a plan, and rules that pass the checks are never left out of
/// it for a reason of their own.
pub proof fn accepted_acls_are_planned(port_id: Seq<char>, acl: NeutronAclSnapshotModel)
    requires
        validation(acl) is Template,
    ensures
        translation(port_id, acl, validation(acl)) is Ok,
        validation(acl)->Template_0 is Ready ==> translation(
            port_id,
            acl,
            validation(acl),
        )->Ok_0.force_bypass_reason is None,
{
    if validation(acl)->Template_0 is Ready {
        lemma_canonical_ports(acl.rules, 0, Seq::empty());
        let rules = canonical_from(acl.rules, 0, Seq::empty())->Ok_0;
        let interned = interned_rules(rules);
        assert forall|r: int| 0 <= r < interned.len() implies ranges_valid(
            (#[trigger] interned[r]).ports,
        ) by {
            assert(interned[r].ports == rules[r].ports);
        }
        plans_enforce_the_rules(
            port_id,
            acl.stateful,
            interned,
            selector_table(src_of(rules)),
            selector_table(dst_of(rules)),
        );
    }
}

/// A plan that leaves traffic alone, and the plan of an ACL that is not to be enforced, hold no
/// group and no policy.
pub proof fn bypassed_ports_hold_no_rules(
    port_id: Seq<char>,
    acl: NeutronAclSnapshotModel,
    checked: ValidationModel,
)
    requires
        translation(port_id, acl, checked) is Ok,
        !acl_enforced(acl) || translation(port_id, acl, checked)->Ok_0.force_bypass_reason is Some,
    ensures
        ({
            let plan = translation(port_id, acl, checked)->Ok_0;
            plan == AclApplyPlanModel {
                force_bypass_reason: plan.force_bypass_reason,
                ..empty_plan(Some(acl.stateful))
            }
        }),
{
}

proof fn lemma_named_group(
    port_id: Seq<char>,
    side: Seq<char>,
    table: Seq<Seq<CidrModel>>,
    id: AclSelectorId,
)
    requires
        id.0 < table.len(),
    ensures
        group_name(port_id, side, id) == "any"@ || exists|g: int|
            0 <= g < table_groups(port_id, side, table).len() && #[trigger] table_groups(
                port_id,
                side,
                table,
            )[g].name == group_name(port_id, side, id),
{
    if id.0 > 0 {
        let groups = table_groups(port_id, side, table);
        assert(groups[id.0 - 1].name == group_name(port_id, side, id));
    }
}

/// What the plan of a port names is its own: every group carries the prefix of the port, and
/// every policy is about any address or about groups of the plan.
pub proof fn plans_name_their_own_groups(
    port_id: Seq<char>,
    stateful: bool,
    rules: Seq<CanonicalAclRuleModel>,
    i: int,
)
    requires
        rules_template(rules) is Ready,
        forall|r: int| 0 <= r < rules.len() ==> ranges_valid((#[trigger] rules[r]).ports),
    ensures
        ({
            let src = selector_table(src_of(rules));
            let dst = selector_table(dst_of(rules));
            let plan = rendered(port_id, stateful, interned_rules(rules), src, dst)->Ok_0;
            &&& 0 <= i < plan.groups.len() && src.len() <= usize::MAX && dst.len() <= usize::MAX
                ==> acl_prefix(port_id).is_prefix_of(plan.groups[i].name)
            &&& 0 <= i < plan.policies.len() ==> {
                let policy = plan.policies[i];
                &&& policy.src_group == "any"@ || exists|g: int|
                    0 <= g < plan.groups.len() && #[trigger] plan.groups[g].name
                        == policy.src_group
                &&& policy.dst_group == "any"@ || exists|g: int|
                    0 <= g < plan.groups.len() && #[trigger] plan.groups[g].name
                        == policy.dst_group
            }
        }),
{
    let src = selector_table(src_of(rules));
    let dst = selector_table(dst_of(rules));
    let interned = interned_rules(rules);
    let plan = rendered(port_id, stateful, interned, src, dst)->Ok_0;
    let src_groups = table_groups(port_id, "src"@, src);
    let dst_groups = table_groups(port_id, "dst"@, dst);
    assert forall|r: int| 0 <= r < interned.len() implies ranges_valid(
        (#[trigger] interned[r]).ports,
    ) by {
        assert(interned[r].ports == rules[r].ports);
    }
    let none = Map::<PolicyKeyModel, AclPolicyPlanModel>::empty();
    assert(policies_of(none, port_id, interned, 0, 0));
    lemma_add_rules(none, port_id, interned, src, dst, 0);
    let policies = add_rules(none, port_id, interned, 0)->Ok_0;
    let keys = in_order::<AclEffectivePolicyKey>(policies.dom());
    lemma_in_order::<AclEffectivePolicyKey>(policies.dom());
    if 0 <= i < plan.policies.len() {
        assert(keys.contains(keys[i]));
        let (r, e) = choose|r: int, e: int| #[trigger]
            done(interned, interned.len() as int, 0, r, e) && key_at(port_id, interned, r, e)
                == keys[i];
        interned_selectors_resolve(rules, r);
        lemma_named_group(port_id, "src"@, src, interned[r].src_selector_id);
        lemma_named_group(port_id, "dst"@, dst, interned[r].dst_selector_id);
        let policy = plan.policies[i];
        if policy.src_group != "any"@ {
            let g = choose|g: int|
                0 <= g < src_groups.len() && #[trigger] src_groups[g].name == policy.src_group;
            assert(plan.groups[g].name == policy.src_group);
        }
        if policy.dst_group != "any"@ {
            let g = choose|g: int|
                0 <= g < dst_groups.len() && #[trigger] dst_groups[g].name == policy.dst_group;
            assert(plan.groups[src_groups.len() + g].name == policy.dst_group);
        }
    }
    if 0 <= i < plan.groups.len() && src.len() <= usize::MAX && dst.len() <= usize::MAX {
        let prefix = acl_prefix(port_id);
        let name = plan.groups[i].name;
        if i < src_groups.len() {
            assert(name == prefix + "src"@ + ":selector:"@ + decimal(i as nat));
        } else {
            let g = i - src_groups.len();
            assert(plan.groups[i] == dst_groups[g]);
            assert(name == prefix + "dst"@ + ":selector:"@ + decimal(g as nat));
        }
        assert(name.subrange(0, prefix.len() as int) =~= prefix);
    }
}

/// The rule at which the priorities first go wrong is reported, whatever the selectors are: for a
/// negative priority, or together with the rule that has the same direction and priority.
pub proof fn priority_faults_are_reported_first(
    rules: Seq<NormalizedAclRuleModel>,
    src_table: Seq<Seq<CidrModel>>,
    dst_table: Seq<Seq<CidrModel>>,
    k: int,
    j: int,
)
    requires
        0 <= k < rules.len(),
        forall|i: int| 0 <= i < k ==> (#[trigger] rules[i]).priority >= 0,
        keys_distinct(rules, k),
        rules[k].priority < 0 || (0 <= j < k && rule_key(rules[j]) == rule_key(rules[k])),
    ensures
        overlap_reason(rules, src_table, dst_table) == Some(
            if rules[k].priority < 0 {
                "invalid_acl_priority:"@ + rules[k].id + ":"@ + signed_decimal(
                    rules[k].priority as int,
                )
            } else {
                "duplicate_acl_priority:"@ + rules[k].direction + ":"@ + signed_decimal(
                    rules[k].priority as int,
                ) + ":"@ + rules[j].id + ":"@ + rules[k].id
            },
        ),
{
    lemma_no_fault_before(rules, 0, k);
    if rules[k].priority >= 0 {
        let p = |i: int| rule_key(rules[i]) == rule_key(rules[k]);
        assert forall|i: int| 0 <= i < j implies !#[trigger] p(i) by {
            assert(rule_key(rules[i]) != rule_key(rules[j]));
        }
        lemma_first_from(k, 0, p, j);
    }
}

proof fn lemma_no_fault_before(rules: Seq<NormalizedAclRuleModel>, i: int, k: int)
    requires
        0 <= i <= k <= rules.len(),
        forall|i: int| 0 <= i < k ==> (#[trigger] rules[i]).priority >= 0,
        keys_distinct(rules, k),
    ensures
        first_priority_fault(rules, i) == first_priority_fault(rules, k),
    decreases k - i,
{
    if i < k {
        let p = |m: int| rule_key(rules[m]) == rule_key(rules[i]);
        assert forall|m: int| 0 <= m < i implies !#[trigger] p(m) by {
            assert(rule_key(rules[m]) != rule_key(rules[i]));
        }
        lemma_first_from(i, 0, p, i);
        assert(rules[i].priority >= 0);
        assert(priority_fault(rules, i) is None);
        lemma_no_fault_before(rules, i + 1, k);
    }
}

proof fn lemma_shuffled_keys(a: Seq<NormalizedAclRuleModel>, b: Seq<NormalizedAclRuleModel>)
    requires
        a.to_multiset() == b.to_multiset(),
        keys_distinct(a, a.len() as int),
    ensures
        keys_distinct(b, b.len() as int),
        forall|r: NormalizedAclRuleModel| #[trigger] a.contains(r) <==> b.contains(r),
{
    a.to_multiset_ensures();
    b.to_multiset_ensures();
    assert forall|r: NormalizedAclRuleModel| #[trigger] a.contains(r) <==> b.contains(r) by {
        assert(a.contains(r) <==> a.to_multiset().count(r) > 0);
        assert(b.contains(r) <==> b.to_multiset().count(r) > 0);
    }
    assert(a.no_duplicates()) by {
        assert forall|i: int, j: int| 0 <= i < a.len() && 0 <= j < a.len() && i != j implies a[i]
            != a[j] by {
            if i < j {
                assert(rule_key(a[i]) != rule_key(a[j]));
            } else {
                assert(rule_key(a[j]) != rule_key(a[i]));
            }
        }
    }
    a.lemma_multiset_has_no_duplicates();
    b.lemma_multiset_has_no_duplicates_conv();
    assert forall|i: int, j: int| 0 <= i < j < b.len() implies rule_key(#[trigger] b[i])
        != rule_key(#[trigger] b[j]) by {
        assert(b.contains(b[i]) && b.contains(b[j]));
        assert(a.contains(b[i]) && a.contains(b[j]));
        let m = choose|m: int| 0 <= m < a.len() && a[m] == b[i];
        let n = choose|n: int| 0 <= n < a.len() && a[n] == b[j];
        if m < n {
            assert(rule_key(a[m]) != rule_key(a[n]));
        } else if n < m {
            assert(rule_key(a[n]) != rule_key(a[m]));
        } else {
            assert(b[i] == b[j]);
        }
    }
}

proof fn lemma_rule_of_key(
    rules: Seq<NormalizedAclRuleModel>,
    key: (Seq<char>, i64),
    rule: NormalizedAclRuleModel,
)
    requires
        keys_distinct(rules, rules.len() as int),
        rules.contains(rule),
        rule_key(rule) == key,
    ensures
        rules[first_with_key(rules, key, rules.len() as int)] == rule,
{
    let m = choose|m: int| 0 <= m < rules.len() && rules[m] == rule;
    let p = |i: int| rule_key(rules[i]) == key;
    assert forall|i: int| 0 <= i < m implies !#[trigger] p(i) by {
        assert(rule_key(rules[i]) != rule_key(rules[m]));
    }
    lemma_first_from(rules.len() as int, 0, p, m);
}

/// What is reported of rules depends on their directions and priorities, not on the order in which
/// they are listed.
pub proof fn the_order_of_rules_does_not_matter(
    rules: Seq<NormalizedAclRuleModel>,
    shuffled: Seq<NormalizedAclRuleModel>,
    src_table: Seq<Seq<CidrModel>>,
    dst_table: Seq<Seq<CidrModel>>,
)
    requires
        rules.to_multiset() == shuffled.to_multiset(),
        forall|i: int| 0 <= i < rules.len() ==> (#[trigger] rules[i]).priority >= 0,
        keys_distinct(rules, rules.len() as int),
    ensures
        overlap_reason(shuffled, src_table, dst_table) == overlap_reason(
            rules,
            src_table,
            dst_table,
        ),
{
    lemma_shuffled_keys(rules, shuffled);
    assert forall|i: int| 0 <= i < shuffled.len() implies (#[trigger] shuffled[i]).priority >= 0 by {
        assert(shuffled.contains(shuffled[i]));
        assert(rules.contains(shuffled[i]));
    }
    lemma_no_fault_before(rules, 0, rules.len() as int);
    lemma_no_fault_before(shuffled, 0, shuffled.len() as int);
    assert forall|k: (Seq<char>, i64)| #[trigger]
        rule_keys(rules).contains(k) <==> rule_keys(shuffled).contains(k) by {
        if rule_keys(rules).contains(k) {
            let m = choose|m: int| 0 <= m < rules.len() && rule_key(#[trigger] rules[m]) == k;
            assert(rules.contains(rules[m]));
            assert(shuffled.contains(rules[m]));
            let n = choose|n: int| 0 <= n < shuffled.len() && shuffled[n] == rules[m];
            assert(rule_key(shuffled[n]) == k);
        }
        if rule_keys(shuffled).contains(k) {
            let n = choose|n: int| 0 <= n < shuffled.len() && rule_key(#[trigger] shuffled[n]) == k;
            assert(shuffled.contains(shuffled[n]));
            assert(rules.contains(shuffled[n]));
            let m = choose|m: int| 0 <= m < rules.len() && rules[m] == shuffled[n];
            assert(rule_key(rules[m]) == k);
        }
    }
    assert(rule_keys(rules) =~= rule_keys(shuffled));
    lemma_rule_keys_finite(rules);
    let keys = in_order::<(String, i64)>(rule_keys(rules));
    lemma_in_order::<(String, i64)>(rule_keys(rules));
    assert forall|i: int| 0 <= i < keys.len() implies #[trigger] priority_order(rules)[i]
        == priority_order(shuffled)[i] by {
        assert(keys.contains(keys[i]));
        let m = choose|m: int| 0 <= m < rules.len() && rule_key(#[trigger] rules[m]) == keys[i];
        assert(rules.contains(rules[m]));
        lemma_rule_of_key(rules, keys[i], rules[m]);
        lemma_rule_of_key(shuffled, keys[i], rules[m]);
    }
    assert(priority_order(rules) =~= priority_order(shuffled));
}

} // verus!
