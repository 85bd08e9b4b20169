//! Rules that the datapath cannot order: it picks a rule by its selectors and
//! protocol, not by priority, so overlapping rules must agree.

use crate::acl_cidr::{AclIpv4Cidr, CidrModel};
use crate::acl_rules::first_from;
use crate::acl_selector::{
    acl_selector_best_overlap, acl_selector_relation, best_overlap, selector_relation,
    AclSelectorId, AclSelectorRelation, NormalizedAclRule, NormalizedAclRuleModel,
};
use crate::ordered::{in_order, OrderedMap, Value};
use crate::text::{i64_text, signed_decimal};
use vstd::prelude::*;
use vstd::string::*;

verus! {

/// What makes a rule unique within its policy.
pub open spec fn rule_key(rule: NormalizedAclRuleModel) -> (Seq<char>, i64) {
    (rule.direction, rule.priority)
}

/// The index of the first rule with a key, or the number of rules.
pub open spec fn first_with_key(
    rules: Seq<NormalizedAclRuleModel>,
    key: (Seq<char>, i64),
    upto: int,
) -> int {
    first_from(upto, 0, |i: int| rule_key(rules[i]) == key)
}

/// What is wrong with the priority of a rule, given the rules before it.
pub open spec fn priority_fault(rules: Seq<NormalizedAclRuleModel>, i: int) -> Option<Seq<char>> {
    let rule = rules[i];
    let first = first_with_key(rules, rule_key(rule), i);
    if rule.priority < 0 {
        Some(
            "invalid_acl_priority:"@ + rule.id + ":"@ + signed_decimal(rule.priority as int),
        )
    } else if first < i {
        Some(
            "duplicate_acl_priority:"@ + rule.direction + ":"@ + signed_decimal(
                rule.priority as int,
            ) + ":"@ + rules[first].id + ":"@ + rule.id,
        )
    } else {
        None
    }
}

/// The first fault among the rules from the one at `i` on.
pub open spec fn first_priority_fault(rules: Seq<NormalizedAclRuleModel>, i: int) -> Option<
    Seq<char>,
>
    decreases rules.len() - i,
{
    if i >= rules.len() {
        None
    } else {
        match priority_fault(rules, i) {
            Some(reason) => Some(reason),
            None => first_priority_fault(rules, i + 1),
        }
    }
}

/// The keys of rules.
pub open spec fn rule_keys(rules: Seq<NormalizedAclRuleModel>) -> Set<(Seq<char>, i64)> {
    Set::new(
        |k: (Seq<char>, i64)|
            exists|i: int| 0 <= i < rules.len() && rule_key(#[trigger] rules[i]) == k,
    )
}

/// Rules in ascending order of direction and priority.
pub open spec fn priority_order(rules: Seq<NormalizedAclRuleModel>) -> Seq<NormalizedAclRuleModel> {
    in_order::<(String, i64)>(rule_keys(rules)).map_values(
        |k: (Seq<char>, i64)| rules[first_with_key(rules, k, rules.len() as int)],
    )
}

/// For each place of a table, the first rule whose selector is there.
pub open spec fn first_uses(ids: Seq<AclSelectorId>, places: nat) -> Seq<Option<usize>> {
    Seq::new(
        places,
        |s: int|
            {
                let first = first_from(ids.len() as int, 0, |i: int| ids[i].0 == s);
                if s > 0 && first < ids.len() {
                    Some(first as usize)
                } else {
                    None
                }
            },
    )
}

/// The source places of rules.
pub open spec fn src_ids(rules: Seq<NormalizedAclRuleModel>) -> Seq<AclSelectorId> {
    rules.map_values(|rule: NormalizedAclRuleModel| rule.src_selector_id)
}

/// The destination places of rules.
pub open spec fn dst_ids(rules: Seq<NormalizedAclRuleModel>) -> Seq<AclSelectorId> {
    rules.map_values(|rule: NormalizedAclRuleModel| rule.dst_selector_id)
}

/// The pair of rules whose selectors overlap first, and whether it is on the
/// source side; the source side wins a tie.
pub open spec fn overlap_candidate(
    src: Option<(usize, usize)>,
    dst: Option<(usize, usize)>,
) -> Option<(usize, usize, bool)> {
    match (src, dst) {
        (Some(s), Some(d)) => if s.0 < d.0 || (s.0 == d.0 && s.1 <= d.1) {
            Some((s.0, s.1, true))
        } else {
            Some((d.0, d.1, false))
        },
        (Some(s), None) => Some((s.0, s.1, true)),
        (None, Some(d)) => Some((d.0, d.1, false)),
        (None, None) => None,
    }
}

/// True when two rules are attached to a common hook.
pub open spec fn directions_meet(a: Seq<u8>, b: Seq<u8>) -> bool {
    exists|i: int| 0 <= i < a.len() && b.contains(#[trigger] a[i])
}

/// True when some packet may match both rules.
pub open spec fn rules_meet(left: NormalizedAclRuleModel, right: NormalizedAclRuleModel) -> bool {
    &&& directions_meet(left.directions, right.directions)
    &&& left.proto == 0 || right.proto == 0 || left.proto == right.proto
    &&& selector_relation(left.src_selector_id, right.src_selector_id)
        != AclSelectorRelation::Disjoint
    &&& selector_relation(left.dst_selector_id, right.dst_selector_id)
        != AclSelectorRelation::Disjoint
}

/// True when it does not matter which of two rules the datapath picks.
pub open spec fn rules_agree(left: NormalizedAclRuleModel, right: NormalizedAclRuleModel) -> bool {
    &&& left.action == right.action
    &&& (left.ports == right.ports || (left.proto == right.proto && left.src_selector_id
        == right.src_selector_id && left.dst_selector_id == right.dst_selector_id))
}

/// The notation of two rules with their priorities.
pub open spec fn pair_text(left: NormalizedAclRuleModel, right: NormalizedAclRuleModel) -> Seq<
    char,
> {
    left.id + ":"@ + signed_decimal(left.priority as int) + ":"@ + right.id + ":"@
        + signed_decimal(right.priority as int)
}

/// The reason why a pair of rules is refused, if it is.
pub open spec fn pair_reason(
    rules: Seq<NormalizedAclRuleModel>,
    candidate: Option<(usize, usize, bool)>,
    i: int,
    j: int,
) -> Option<Seq<char>> {
    let left = rules[i];
    let right = rules[j];
    if candidate == Some((i as usize, j as usize, true)) {
        Some("unsupported_acl_cidr_overlap:"@ + "src"@ + ":"@ + pair_text(left, right))
    } else if candidate == Some((i as usize, j as usize, false)) {
        Some("unsupported_acl_cidr_overlap:"@ + "dst"@ + ":"@ + pair_text(left, right))
    } else if rules_meet(left, right) && !rules_agree(left, right) {
        Some("unsupported_acl_priority_overlap:"@ + pair_text(left, right))
    } else {
        None
    }
}

/// The first reason among the pairs from (`i`, `j`) on.
pub open spec fn first_pair_reason(
    rules: Seq<NormalizedAclRuleModel>,
    candidate: Option<(usize, usize, bool)>,
    i: int,
    j: int,
) -> Option<Seq<char>>
    decreases rules.len() - i, rules.len() - j,
{
    if i >= rules.len() {
        None
    } else if j >= rules.len() {
        first_pair_reason(rules, candidate, i + 1, i + 2)
    } else {
        match pair_reason(rules, candidate, i, j) {
            Some(reason) => Some(reason),
            None => first_pair_reason(rules, candidate, i, j + 1),
        }
    }
}

/// The earliest overlap among the selectors of rules in priority order.
pub open spec fn rules_candidate(
    ordered: Seq<NormalizedAclRuleModel>,
    src_table: Seq<Seq<CidrModel>>,
    dst_table: Seq<Seq<CidrModel>>,
) -> Option<(usize, usize, bool)> {
    overlap_candidate(
        best_overlap(src_table, first_uses(src_ids(ordered), src_table.len())),
        best_overlap(dst_table, first_uses(dst_ids(ordered), dst_table.len())),
    )
}

/// The reason why the datapath cannot enforce rules, if it cannot.
pub open spec fn overlap_reason(
    rules: Seq<NormalizedAclRuleModel>,
    src_table: Seq<Seq<CidrModel>>,
    dst_table: Seq<Seq<CidrModel>>,
) -> Option<Seq<char>> {
    match first_priority_fault(rules, 0) {
        Some(reason) => Some(reason),
        None => {
            let ordered = priority_order(rules);
            first_pair_reason(ordered, rules_candidate(ordered, src_table, dst_table), 0, 1)
        },
    }
}

/// An index at which a property holds for the first time is the first.
pub proof fn lemma_first_from(n: int, i: int, p: spec_fn(int) -> bool, found: int)
    requires
        i <= found <= n,
        found < n ==> p(found),
        forall|k: int| i <= k < found ==> !#[trigger] p(k),
    ensures
        first_from(n, i, p) == found,
    decreases found - i,
{
    if i < found {
        assert(!p(i));
        lemma_first_from(n, i + 1, p, found);
    }
}

/// What the search for the first index finds.
pub proof fn lemma_first_from_found(n: int, i: int, p: spec_fn(int) -> bool)
    requires
        i <= n,
    ensures
        i <= first_from(n, i, p) <= n,
        first_from(n, i, p) < n ==> p(first_from(n, i, p)),
        forall|k: int| i <= k < first_from(n, i, p) ==> !#[trigger] p(k),
    decreases n - i,
{
    if i < n && !p(i) {
        lemma_first_from_found(n, i + 1, p);
    }
}

/// True when no two rules below `n` have the same key.
pub open spec fn keys_distinct(rules: Seq<NormalizedAclRuleModel>, n: int) -> bool {
    forall|i: int, j: int|
        0 <= i < j < n ==> rule_key(#[trigger] rules[i]) != rule_key(#[trigger] rules[j])
}

/// Checks the priorities of rules one by one.
fn check_priorities(rules: &[NormalizedAclRule], map: &mut OrderedMap<(String, i64), usize>) -> (r:
    Option<String>)
    requires
        old(map).deep_view() == Map::<(Seq<char>, i64), usize>::empty(),
    ensures
        r.deep_view() == first_priority_fault(rules.deep_view(), 0),
        r is None ==> {
            &&& keys_distinct(rules.deep_view(), rules.deep_view().len() as int)
            &&& final(map).deep_view().dom() == rule_keys(rules.deep_view())
            &&& forall|i: int|
                0 <= i < rules.deep_view().len() ==> final(map).deep_view()[rule_key(
                    #[trigger] rules.deep_view()[i],
                )] == i
        },
{
    let ghost models = rules.deep_view();
    let mut i: usize = 0;
    assert(map.deep_view().dom() =~= rule_keys(models.take(0)));
    while i < rules.len()
        invariant
            i <= rules.len(),
            models == rules.deep_view(),
            keys_distinct(models, i as int),
            map.deep_view().dom() == rule_keys(models.take(i as int)),
            forall|k: int|
                0 <= k < i ==> map.deep_view()[rule_key(#[trigger] models[k])] == k,
            first_priority_fault(models, 0) == first_priority_fault(models, i as int),
        decreases rules.len() - i,
    {
        let rule = &rules[i];
        assert(models[i as int] == rule.deep_view());
        if rule.priority < 0 {
            let mut reason = "invalid_acl_priority:".to_owned();
            reason.append(rule.id.as_str());
            reason.append(":");
            reason.append(i64_text(rule.priority).as_str());
            return Some(reason);
        }
        let key = (rule.direction.duplicate(), rule.priority);
        let ghost k = rule_key(models[i as int]);
        let ghost p = |m: int| rule_key(models[m]) == k;
        assert(key.deep_view() == k);
        proof {
            let part = models.take(i as int);
            if rule_keys(part).contains(k) {
                let m = choose|m: int| 0 <= m < part.len() && rule_key(#[trigger] part[m]) == k;
                assert(models[m] == part[m]);
                assert forall|q: int| 0 <= q < m implies !#[trigger] p(q) by {
                    assert(rule_key(models[q]) != rule_key(models[m]));
                }
                lemma_first_from(i as int, 0, p, m);
            } else {
                assert forall|q: int| 0 <= q < i implies !#[trigger] p(q) by {
                    assert(part[q] == models[q]);
                }
                lemma_first_from(i as int, 0, p, i as int);
            }
        }
        let found: Option<usize> = match map.get(&key) {
            Some(first) => Some(*first),
            None => None,
        };
        if let Some(first) = found {
            proof {
                let part = models.take(i as int);
                let m = choose|m: int| 0 <= m < part.len() && rule_key(#[trigger] part[m]) == k;
                assert(models[m] == part[m]);
                assert(map.deep_view()[rule_key(models[m])] == m);
                assert forall|q: int| 0 <= q < m implies !#[trigger] p(q) by {
                    assert(rule_key(models[q]) != rule_key(models[m]));
                }
                lemma_first_from(i as int, 0, p, m);
                assert(models[first as int] == rules@[first as int].deep_view());
            }
            let mut reason = "duplicate_acl_priority:".to_owned();
            reason.append(rule.direction.as_str());
            reason.append(":");
            reason.append(i64_text(rule.priority).as_str());
            reason.append(":");
            reason.append(rules[first].id.as_str());
            reason.append(":");
            reason.append(rule.id.as_str());
            return Some(reason);
        }
        map.insert(key, i);
        proof {
            let part = models.take(i as int);
            let next = models.take(i + 1);
            assert forall|q: int| 0 <= q < i implies rule_key(#[trigger] models[q]) != k by {
                assert(part[q] == models[q]);
            }
            assert forall|x: (Seq<char>, i64)| #[trigger]
                rule_keys(next).contains(x) <==> (x == k || rule_keys(part).contains(x)) by {
                assert(next[i as int] == models[i as int]);
                if rule_keys(part).contains(x) {
                    let m = choose|m: int| 0 <= m < part.len() && rule_key(#[trigger] part[m]) == x;
                    assert(next[m] == part[m]);
                }
                if rule_keys(next).contains(x) {
                    let m = choose|m: int| 0 <= m < next.len() && rule_key(#[trigger] next[m]) == x;
                    if m < i {
                        assert(part[m] == next[m]);
                    }
                }
            }
            assert(map.deep_view().dom() =~= rule_keys(next));
        }
        i += 1;
    }
    assert(models.take(i as int) =~= models);
    None
}

/// The indexes of rules in ascending order of direction and priority.
fn ordered_indexes(rules: &[NormalizedAclRule], map: &OrderedMap<(String, i64), usize>) -> (r: Vec<
    usize,
>)
    requires
        keys_distinct(rules.deep_view(), rules.deep_view().len() as int),
        map.deep_view().dom() == rule_keys(rules.deep_view()),
        forall|i: int|
            0 <= i < rules.deep_view().len() ==> map.deep_view()[rule_key(
                #[trigger] rules.deep_view()[i],
            )] == i,
    ensures
        r@.len() == priority_order(rules.deep_view()).len(),
        forall|i: int|
            0 <= i < r@.len() ==> (#[trigger] r@[i]) < rules.deep_view().len()
                && rules.deep_view()[r@[i] as int] == priority_order(rules.deep_view())[i],
{
    let ghost models = rules.deep_view();
    let ghost keys = in_order::<(String, i64)>(rule_keys(models));
    let ghost ordered = priority_order(models);
    let n: usize = map.len();
    let mut r: Vec<usize> = Vec::new();
    let mut i: usize = 0;
    while i < n
        invariant
            i <= n,
            n == keys.len(),
            models == rules.deep_view(),
            keys == in_order::<(String, i64)>(rule_keys(models)),
            ordered == priority_order(models),
            keys_distinct(models, models.len() as int),
            map.deep_view().dom() == rule_keys(models),
            forall|i: int|
                0 <= i < models.len() ==> map.deep_view()[rule_key(#[trigger] models[i])] == i,
            forall|k: (Seq<char>, i64)| #[trigger] keys.contains(k) <==> rule_keys(models).contains(k),
            r@.len() == i,
            forall|k: int|
                0 <= k < r@.len() ==> (#[trigger] r@[k]) < models.len() && models[r@[k] as int]
                    == ordered[k],
        decreases n - i,
    {
        let place: usize = *map.value_at(i);
        proof {
            let k = keys[i as int];
            assert(keys.contains(k));
            let m = choose|m: int| 0 <= m < models.len() && rule_key(#[trigger] models[m]) == k;
            let p = |q: int| rule_key(models[q]) == k;
            assert forall|q: int| 0 <= q < m implies !#[trigger] p(q) by {
                assert(rule_key(models[q]) != rule_key(models[m]));
            }
            lemma_first_from(models.len() as int, 0, p, m);
            assert(place == m);
        }
        r.push(place);
        i += 1;
    }
    r
}

fn use_table(places: usize) -> (r: Vec<Option<usize>>)
    ensures
        r@ == Seq::new(places as nat, |i: int| None::<usize>),
{
    let mut r: Vec<Option<usize>> = Vec::new();
    let mut i: usize = 0;
    while i < places
        invariant
            i <= places,
            r@ == Seq::new(i as nat, |i: int| None::<usize>),
        decreases places - i,
    {
        r.push(None);
        assert(r@ =~= Seq::new((i + 1) as nat, |i: int| None::<usize>));
        i += 1;
    }
    r
}

/// Finds for each place of a table the first rule whose selector is there.
fn first_use_table(ids: &Vec<AclSelectorId>, places: usize) -> (r: Vec<Option<usize>>)
    requires
        forall|i: int| 0 <= i < ids@.len() ==> (#[trigger] ids@[i]).0 == 0 || ids@[i].0 < places,
    ensures
        r@ == first_uses(ids@, places as nat),
{
    let mut r = use_table(places);
    let mut i: usize = 0;
    while i < ids.len()
        invariant
            i <= ids.len(),
            r@.len() == places,
            forall|k: int|
                0 <= k < ids@.len() ==> (#[trigger] ids@[k]).0 == 0 || ids@[k].0 < places,
            forall|s: int|
                0 <= s < places ==> match #[trigger] r@[s] {
                    Some(first) => s > 0 && first < i && ids@[first as int].0 == s && forall|k: int|
                        0 <= k < first ==> (#[trigger] ids@[k]).0 != s,
                    None => s == 0 || forall|k: int| 0 <= k < i ==> (#[trigger] ids@[k]).0 != s,
                },
        decreases ids.len() - i,
    {
        let id: usize = ids[i].0;
        if id != 0 && r[id].is_none() {
            r[id] = Some(i);
        }
        i += 1;
    }
    proof {
        assert forall|s: int| 0 <= s < places implies #[trigger] r@[s] == first_uses(
            ids@,
            places as nat,
        )[s] by {
            let p = |k: int| ids@[k].0 == s;
            match r@[s] {
                Some(first) => {
                    assert forall|k: int| 0 <= k < first implies !#[trigger] p(k) by {}
                    lemma_first_from(ids@.len() as int, 0, p, first as int);
                },
                None => {
                    if s > 0 {
                        assert forall|k: int| 0 <= k < ids@.len() implies !#[trigger] p(k) by {}
                        lemma_first_from(ids@.len() as int, 0, p, ids@.len() as int);
                    }
                },
            }
        }
        assert(r@ =~= first_uses(ids@, places as nat));
    }
    r
}

fn common_direction(a: &Vec<u8>, b: &Vec<u8>) -> (r: bool)
    ensures
        r == directions_meet(a.deep_view(), b.deep_view()),
{
    assert(a.deep_view() =~= a@);
    assert(b.deep_view() =~= b@);
    let mut i: usize = 0;
    while i < a.len()
        invariant
            i <= a.len(),
            a.deep_view() == a@,
            b.deep_view() == b@,
            forall|k: int| 0 <= k < i ==> !b@.contains(#[trigger] a@[k]),
        decreases a.len() - i,
    {
        let mut j: usize = 0;
        while j < b.len()
            invariant
                i < a.len(),
                j <= b.len(),
                a.deep_view() == a@,
                b.deep_view() == b@,
                forall|k: int| 0 <= k < j ==> b@[k] != a@[i as int],
            decreases b.len() - j,
        {
            if a[i] == b[j] {
                assert(b.deep_view().contains(a.deep_view()[i as int]));
                return true;
            }
            j += 1;
        }
        i += 1;
    }
    false
}

fn write_pair(head: &str, left: &NormalizedAclRule, right: &NormalizedAclRule) -> (r: String)
    ensures
        r@ == head@ + pair_text(left.deep_view(), right.deep_view()),
{
    let mut pair = left.id.clone();
    pair.append(":");
    pair.append(i64_text(left.priority).as_str());
    pair.append(":");
    pair.append(right.id.as_str());
    pair.append(":");
    pair.append(i64_text(right.priority).as_str());
    let mut r = head.to_owned();
    r.append(pair.as_str());
    r
}

fn explain_pair(
    candidate: Option<(usize, usize, bool)>,
    i: usize,
    j: usize,
    left: &NormalizedAclRule,
    right: &NormalizedAclRule,
    Ghost(rules): Ghost<Seq<NormalizedAclRuleModel>>,
) -> (r: Option<String>)
    requires
        i < rules.len(),
        j < rules.len(),
        rules[i as int] == left.deep_view(),
        rules[j as int] == right.deep_view(),
    ensures
        r.deep_view() == pair_reason(rules, candidate, i as int, j as int),
{
    if let Some((first, second, src)) = candidate {
        if first == i && second == j {
            let mut head = "unsupported_acl_cidr_overlap:".to_owned();
            if src {
                head.append("src");
            } else {
                head.append("dst");
            }
            head.append(":");
            return Some(write_pair(head.as_str(), left, right));
        }
    }
    if !common_direction(&left.directions, &right.directions) {
        return None;
    }
    if left.proto != 0 && right.proto != 0 && left.proto != right.proto {
        return None;
    }
    if acl_selector_relation(left.src_selector_id, right.src_selector_id)
        == AclSelectorRelation::Disjoint {
        return None;
    }
    if acl_selector_relation(left.dst_selector_id, right.dst_selector_id)
        == AclSelectorRelation::Disjoint {
        return None;
    }
    let same_key = left.proto == right.proto && left.src_selector_id == right.src_selector_id
        && left.dst_selector_id == right.dst_selector_id;
    let same_behavior = left.action == right.action && left.ports.same(&right.ports);
    if same_behavior || (same_key && left.action == right.action) {
        return None;
    }
    Some(write_pair("unsupported_acl_priority_overlap:", left, right))
}

/// Says why the datapath cannot enforce rules, if it cannot.
pub fn acl_priority_overlap_reason(
    rules: &[NormalizedAclRule],
    src_selectors: &[Vec<AclIpv4Cidr>],
    dst_selectors: &[Vec<AclIpv4Cidr>],
) -> (r: Option<String>)
    requires
        first_priority_fault(rules.deep_view(), 0) is None ==> forall|i: int|
            0 <= i < rules.deep_view().len() ==> {
                let rule = #[trigger] rules.deep_view()[i];
                &&& rule.src_selector_id.0 == 0 || rule.src_selector_id.0
                    < src_selectors.deep_view().len()
                &&& rule.dst_selector_id.0 == 0 || rule.dst_selector_id.0
                    < dst_selectors.deep_view().len()
            },
    ensures
        r.deep_view() == overlap_reason(
            rules.deep_view(),
            src_selectors.deep_view(),
            dst_selectors.deep_view(),
        ),
{
    let ghost models = rules.deep_view();
    let mut map: OrderedMap<(String, i64), usize> = OrderedMap::new();
    let fault = check_priorities(rules, &mut map);
    if fault.is_some() {
        return fault;
    }
    let order = ordered_indexes(rules, &map);
    let ghost ordered = priority_order(models);
    let mut srcs: Vec<AclSelectorId> = Vec::new();
    let mut dsts: Vec<AclSelectorId> = Vec::new();
    let mut k: usize = 0;
    while k < order.len()
        invariant
            k <= order.len(),
            models == rules.deep_view(),
            ordered == priority_order(models),
            order@.len() == ordered.len(),
            forall|i: int|
                0 <= i < order@.len() ==> (#[trigger] order@[i]) < models.len()
                    && models[order@[i] as int] == ordered[i],
            forall|i: int|
                0 <= i < models.len() ==> {
                    let rule = #[trigger] models[i];
                    &&& rule.src_selector_id.0 == 0 || rule.src_selector_id.0
                        < src_selectors.deep_view().len()
                    &&& rule.dst_selector_id.0 == 0 || rule.dst_selector_id.0
                        < dst_selectors.deep_view().len()
                },
            srcs@ == src_ids(ordered).take(k as int),
            dsts@ == dst_ids(ordered).take(k as int),
            forall|i: int|
                0 <= i < srcs@.len() ==> (#[trigger] srcs@[i]).0 == 0 || srcs@[i].0
                    < src_selectors.deep_view().len(),
            forall|i: int|
                0 <= i < dsts@.len() ==> (#[trigger] dsts@[i]).0 == 0 || dsts@[i].0
                    < dst_selectors.deep_view().len(),
        decreases order.len() - k,
    {
        let rule = &rules[order[k]];
        assert(models[order@[k as int] as int] == rule.deep_view());
        srcs.push(rule.src_selector_id);
        dsts.push(rule.dst_selector_id);
        proof {
            assert(src_ids(ordered).take(k + 1) =~= src_ids(ordered).take(k as int).push(
                src_ids(ordered)[k as int],
            ));
            assert(dst_ids(ordered).take(k + 1) =~= dst_ids(ordered).take(k as int).push(
                dst_ids(ordered)[k as int],
            ));
        }
        k += 1;
    }
    assert(src_ids(ordered).take(k as int) =~= src_ids(ordered));
    assert(dst_ids(ordered).take(k as int) =~= dst_ids(ordered));
    let src_first = first_use_table(&srcs, src_selectors.len());
    let dst_first = first_use_table(&dsts, dst_selectors.len());
    let src_best = acl_selector_best_overlap(src_selectors, src_first.as_slice());
    let dst_best = acl_selector_best_overlap(dst_selectors, dst_first.as_slice());
    let candidate = match (src_best, dst_best) {
        (Some(src), Some(dst)) => {
            if src.0 < dst.0 || (src.0 == dst.0 && src.1 <= dst.1) {
                Some((src.0, src.1, true))
            } else {
                Some((dst.0, dst.1, false))
            }
        },
        (Some(src), None) => Some((src.0, src.1, true)),
        (None, Some(dst)) => Some((dst.0, dst.1, false)),
        (None, None) => None,
    };
    let ghost wanted = overlap_reason(models, src_selectors.deep_view(), dst_selectors.deep_view());
    assert(wanted == first_pair_reason(ordered, candidate, 0, 1));
    let mut i: usize = 0;
    while i < order.len()
        invariant
            i <= order.len(),
            models == rules.deep_view(),
            ordered == priority_order(models),
            order@.len() == ordered.len(),
            forall|i: int|
                0 <= i < order@.len() ==> (#[trigger] order@[i]) < models.len()
                    && models[order@[i] as int] == ordered[i],
            wanted == overlap_reason(
                models,
                src_selectors.deep_view(),
                dst_selectors.deep_view(),
            ),
            wanted == first_pair_reason(ordered, candidate, i as int, i + 1),
        ensures
            i == order.len(),
            wanted == first_pair_reason(ordered, candidate, i as int, i + 1),
            order@.len() == ordered.len(),
        decreases order.len() - i,
    {
        let left = &rules[order[i]];
        let mut j: usize = i + 1;
        while j < order.len()
            invariant
                i < j <= order.len(),
                left == rules@[order@[i as int] as int],
                models == rules.deep_view(),
                ordered == priority_order(models),
                order@.len() == ordered.len(),
                forall|i: int|
                    0 <= i < order@.len() ==> (#[trigger] order@[i]) < models.len()
                        && models[order@[i] as int] == ordered[i],
                wanted == overlap_reason(
                    models,
                    src_selectors.deep_view(),
                    dst_selectors.deep_view(),
                ),
                wanted == first_pair_reason(ordered, candidate, i as int, j as int),
            decreases order.len() - j,
        {
            let right = &rules[order[j]];
            assert(models[order@[i as int] as int] == left.deep_view());
            assert(models[order@[j as int] as int] == right.deep_view());
            let reason = explain_pair(candidate, i, j, left, right, Ghost(ordered));
            if reason.is_some() {
                return reason;
            }
            j += 1;
        }
        i += 1;
    }
    None
}

/// A scan that finds nothing has passed over every later pair.
pub proof fn lemma_scan_none(
    rules: Seq<NormalizedAclRuleModel>,
    candidate: Option<(usize, usize, bool)>,
    i: int,
    j: int,
    a: int,
    b: int,
)
    requires
        first_pair_reason(rules, candidate, i, j) is None,
        0 <= i < j,
        i < a < b < rules.len() || (i == a && j <= b < rules.len()),
    ensures
        pair_reason(rules, candidate, a, b) is None,
    decreases rules.len() - i, rules.len() - j,
{
    if j >= rules.len() {
        lemma_scan_none(rules, candidate, i + 1, i + 2, a, b);
    } else if !(i == a && j == b) {
        lemma_scan_none(rules, candidate, i, j + 1, a, b);
    }
}

/// Rules that are accepted agree wherever one packet may match two of them.
pub proof fn accepted_rules_agree(
    rules: Seq<NormalizedAclRuleModel>,
    src_table: Seq<Seq<CidrModel>>,
    dst_table: Seq<Seq<CidrModel>>,
    a: int,
    b: int,
)
    requires
        overlap_reason(rules, src_table, dst_table) is None,
        0 <= a < b < priority_order(rules).len(),
        rules_meet(priority_order(rules)[a], priority_order(rules)[b]),
    ensures
        rules_agree(priority_order(rules)[a], priority_order(rules)[b]),
{
    let ordered = priority_order(rules);
    lemma_scan_none(ordered, rules_candidate(ordered, src_table, dst_table), 0, 1, a, b);
}

} // verus!
