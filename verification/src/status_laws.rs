//! What holds of every report on the state of the agent.

use crate::acl_cidr::CidrModel;
use crate::acl_overlap::{
    first_pair_reason, first_priority_fault, first_with_key, overlap_reason, pair_reason,
    pair_text, priority_fault, priority_order, rule_key, rules_candidate,
};
use crate::acl_rules::{
    limit_reason, rule_name, rules_limit_reason, side_limit_reason, MAX_ACL_RULES_PER_POLICY,
    MAX_ACL_SELECTOR_MEMBERS,
};
use crate::acl_selector::NormalizedAclRuleModel;
use crate::model::{NeutronAclRuleSnapshotModel, NeutronRuntimeStateModel};
use crate::ordered::{in_order, lemma_in_order, lemma_in_order_is};
use crate::reconcile::unimplemented_text;
use crate::status_v1::{
    class_at, hash_given, is_tombstone, operator_verdict, overall_class, port_class, projection,
    reported_rows, resync_reason, retryable_projection, row_at, row_sound, tombstone,
    unsupported_reason, verdict, worst_port, NeutronStatusOverallReadiness,
    NeutronStatusRequiredAction, NeutronStatusTransactionState, PortEvidenceModel,
    StatusV1EvidenceClass,
};
use crate::text::{decimal, has_prefix, joined, signed_decimal};
use vstd::prelude::*;

verus! {

proof fn lemma_worst_port(
    runtime: NeutronRuntimeStateModel,
    keys: Seq<Seq<char>>,
    n: int,
    i: int,
)
    requires
        0 <= i < n <= keys.len(),
    ensures
        class_at(runtime, keys[i]).rank() <= worst_port(runtime, keys, n).rank(),
    decreases n,
{
    if i < n - 1 {
        lemma_worst_port(runtime, keys, n - 1, i);
    }
}

proof fn lemma_overall_class(runtime: NeutronRuntimeStateModel, key: Seq<char>)
    requires
        runtime.ports.dom().finite(),
        runtime.port_statuses.dom().finite(),
        runtime.ports.dom().contains(key) || runtime.port_statuses.dom().contains(key),
    ensures
        class_at(runtime, key).rank() <= overall_class(runtime).rank(),
{
    let ports = in_order::<String>(runtime.ports.dom());
    let statuses = in_order::<String>(runtime.port_statuses.dom());
    lemma_in_order::<String>(runtime.ports.dom());
    lemma_in_order::<String>(runtime.port_statuses.dom());
    if runtime.ports.dom().contains(key) {
        assert(ports.contains(key));
        let i = choose|i: int| 0 <= i < ports.len() && ports[i] == key;
        lemma_worst_port(runtime, ports, ports.len() as int, i);
    } else {
        assert(statuses.contains(key));
        let i = choose|i: int| 0 <= i < statuses.len() && statuses[i] == key;
        lemma_worst_port(runtime, statuses, statuses.len() as int, i);
    }
}

/// The agent calls itself ready only on proof: the log is sound, nothing is pending or waited for,
/// what was accepted is what is applied, and every managed port has a sound status whose domains
/// are all ready.
pub proof fn readiness_is_proved(runtime: NeutronRuntimeStateModel, key: Seq<char>)
    requires
        runtime.ports.dom().finite(),
        runtime.port_statuses.dom().finite(),
        projection(runtime).overall_readiness == NeutronStatusOverallReadiness::Ready,
    ensures
        runtime.wal_replay_failures == 0,
        runtime.pending_generation is None,
        runtime.recovery_cause is None,
        runtime.authority_state == "ready"@,
        runtime.applied_generation > 0,
        runtime.accepted_generation == runtime.applied_generation,
        runtime.desired_hash == runtime.applied_desired_hash,
        hash_given(runtime.applied_desired_hash),
        runtime.ports.dom().contains(key) ==> {
            &&& runtime.port_statuses.dom().contains(key)
            &&& row_sound(runtime, key, runtime.ports[key], runtime.port_statuses[key])
            &&& port_class(runtime.port_statuses[key]) == StatusV1EvidenceClass::Ready
        },
        !runtime.ports.dom().contains(key) && runtime.port_statuses.dom().contains(key)
            ==> is_tombstone(runtime, key, runtime.port_statuses[key]),
{
    if runtime.ports.dom().contains(key) || runtime.port_statuses.dom().contains(key) {
        lemma_overall_class(runtime, key);
    }
}

/// A port without a sound status, or a status that belongs to no port and tells of no detached
/// one, blocks all ports together.
pub proof fn unsound_rows_block(runtime: NeutronRuntimeStateModel, key: Seq<char>)
    requires
        runtime.ports.dom().finite(),
        runtime.port_statuses.dom().finite(),
        runtime.ports.dom().contains(key) || runtime.port_statuses.dom().contains(key),
        row_at(runtime, key) is None,
    ensures
        overall_class(runtime) == StatusV1EvidenceClass::Blocked,
{
    lemma_overall_class(runtime, key);
}

/// A port without a sound status, or a status that belongs to no port and tells of no detached
/// one, leaves the agent to an operator.
pub proof fn unsound_evidence_blocks(runtime: NeutronRuntimeStateModel, key: Seq<char>)
    requires
        runtime.ports.dom().finite(),
        runtime.port_statuses.dom().finite(),
        runtime.pending_generation is None,
        runtime.ports.dom().contains(key) || runtime.port_statuses.dom().contains(key),
        row_at(runtime, key) is None,
    ensures
        projection(runtime).required_action == NeutronStatusRequiredAction::Operator,
        projection(runtime).overall_readiness == NeutronStatusOverallReadiness::Blocked,
{
    unsound_rows_block(runtime, key);
    if runtime.ports.dom().contains(key) {
        assert(!Map::<Seq<char>, crate::model::ManagedNeutronPortModel>::empty().dom().contains(key));
    } else {
        assert(!Map::<Seq<char>, crate::model::NeutronPortStatusModel>::empty().dom().contains(key));
    }
}

/// A log that could not be read leaves the agent to an operator, whatever else holds.
pub proof fn log_failures_block(runtime: NeutronRuntimeStateModel)
    requires
        runtime.wal_replay_failures > 0,
    ensures
        verdict(runtime, overall_class(runtime)) == operator_verdict(),
        projection(runtime).transaction_state == NeutronStatusTransactionState::Blocked,
        projection(runtime).required_action == NeutronStatusRequiredAction::Operator,
{
}

/// As long as a snapshot is pending, or may be sent again, the agent does not call itself ready.
pub proof fn pending_snapshots_are_never_ready(runtime: NeutronRuntimeStateModel)
    ensures
        runtime.pending_generation is Some ==> projection(runtime).overall_readiness
            != NeutronStatusOverallReadiness::Ready,
        retryable_projection(runtime, true).overall_readiness
            == NeutronStatusOverallReadiness::Blocked,
        retryable_projection(runtime, true).required_action
            == NeutronStatusRequiredAction::RetrySnapshot,
        retryable_projection(runtime, true).port_statuses == projection(runtime).port_statuses,
{
}

/// Every port is reported at most once, and in the order of the identities.
pub proof fn ports_are_reported_once(runtime: NeutronRuntimeStateModel, i: int, j: int)
    requires
        runtime.port_statuses.dom().finite(),
        0 <= i < j < reported_rows(runtime).len(),
    ensures
        crate::text::text_before(
            reported_rows(runtime)[i].port_id,
            reported_rows(runtime)[j].port_id,
        ),
{
    let keys = in_order::<String>(runtime.port_statuses.dom());
    lemma_in_order::<String>(runtime.port_statuses.dom());
    let p = |key: Seq<char>| row_at(runtime, key) is Some;
    lemma_filter_ascending(keys, p);
    let kept = keys.filter(p);
    keys.lemma_filter_pred(p, i);
    keys.lemma_filter_pred(p, j);
    assert(reported_rows(runtime)[i] == row_at(runtime, kept[i])->0);
    assert(reported_rows(runtime)[j] == row_at(runtime, kept[j])->0);
}

proof fn lemma_filter_ascending(keys: Seq<Seq<char>>, p: spec_fn(Seq<char>) -> bool)
    requires
        crate::ordered::ascending::<String>(keys),
    ensures
        crate::ordered::ascending::<String>(keys.filter(p)),
        forall|k: Seq<char>| #[trigger] keys.filter(p).contains(k) ==> keys.contains(k),
    decreases keys.len(),
{
    reveal(Seq::filter);
    if keys.len() > 0 {
        let rest = keys.drop_last();
        let last = keys.last();
        assert forall|i: int, j: int| 0 <= i < j < rest.len() implies
            <String as crate::ordered::Key>::precedes(#[trigger] rest[i], #[trigger] rest[j]) by {
            assert(rest[i] == keys[i] && rest[j] == keys[j]);
        }
        lemma_filter_ascending(rest, p);
        let kept = rest.filter(p);
        assert forall|k: Seq<char>| #[trigger] rest.contains(k) implies keys.contains(k)
            && <String as crate::ordered::Key>::precedes(k, last) by {
            let i = choose|i: int| 0 <= i < rest.len() && rest[i] == k;
            assert(keys[i] == k);
        }
        assert forall|i: int, j: int| 0 <= i < j < keys.filter(p).len() implies
            <String as crate::ordered::Key>::precedes(
            #[trigger] keys.filter(p)[i],
            #[trigger] keys.filter(p)[j],
        ) by {
            if j < kept.len() {
                assert(kept[i] == keys.filter(p)[i] && kept[j] == keys.filter(p)[j]);
            } else {
                assert(kept.contains(kept[i]));
            }
        }
        assert forall|k: Seq<char>| #[trigger] keys.filter(p).contains(k) implies keys.contains(
            k,
        ) by {
            let i = choose|i: int| 0 <= i < keys.filter(p).len() && keys.filter(p)[i] == k;
            if i < kept.len() {
                assert(kept[i] == k);
                assert(kept.contains(k));
            } else {
                assert(keys[keys.len() - 1] == k);
            }
        }
    }
}

/// A runtime without the statuses of some ports.
pub open spec fn without_statuses(
    runtime: NeutronRuntimeStateModel,
    gone: Set<Seq<char>>,
) -> NeutronRuntimeStateModel {
    NeutronRuntimeStateModel {
        port_statuses: runtime.port_statuses.remove_keys(gone),
        ..runtime
    }
}

proof fn lemma_worst_prefix(runtime: NeutronRuntimeStateModel, keys: Seq<Seq<char>>, n: int, m: int)
    requires
        0 <= m <= n <= keys.len(),
    ensures
        worst_port(runtime, keys.take(n), m) == worst_port(runtime, keys, m),
    decreases m,
{
    if m > 0 {
        lemma_worst_prefix(runtime, keys, n, m - 1);
    }
}

proof fn lemma_worst_same(
    a: NeutronRuntimeStateModel,
    b: NeutronRuntimeStateModel,
    keys: Seq<Seq<char>>,
    n: int,
)
    requires
        0 <= n <= keys.len(),
        forall|i: int| 0 <= i < n ==> class_at(a, #[trigger] keys[i]) == class_at(b, keys[i]),
    ensures
        worst_port(a, keys, n) == worst_port(b, keys, n),
    decreases n,
{
    if n > 0 {
        assert(class_at(a, keys[n - 1]) == class_at(b, keys[n - 1]));
        lemma_worst_same(a, b, keys, n - 1);
    }
}

proof fn lemma_worst_without_ready(
    runtime: NeutronRuntimeStateModel,
    keys: Seq<Seq<char>>,
    kept: spec_fn(Seq<char>) -> bool,
)
    requires
        forall|i: int|
            0 <= i < keys.len() && !kept(#[trigger] keys[i]) ==> class_at(runtime, keys[i])
                == StatusV1EvidenceClass::Ready,
    ensures
        worst_port(runtime, keys.filter(kept), keys.filter(kept).len() as int) == worst_port(
            runtime,
            keys,
            keys.len() as int,
        ),
    decreases keys.len(),
{
    reveal(Seq::filter);
    if keys.len() > 0 {
        let rest = keys.drop_last();
        let last = keys.last();
        assert forall|i: int| 0 <= i < rest.len() && !kept(#[trigger] rest[i]) implies class_at(
            runtime,
            rest[i],
        ) == StatusV1EvidenceClass::Ready by {
            assert(rest[i] == keys[i]);
        }
        lemma_worst_without_ready(runtime, rest, kept);
        assert(rest =~= keys.take(keys.len() - 1));
        lemma_worst_prefix(runtime, keys, keys.len() - 1, keys.len() - 1);
        if kept(last) {
            let all = keys.filter(kept);
            assert(all.take(all.len() - 1) =~= rest.filter(kept));
            lemma_worst_prefix(runtime, all, all.len() - 1, all.len() - 1);
        } else {
            assert(keys[keys.len() - 1] == last);
        }
    }
}

proof fn lemma_rows_without(
    runtime: NeutronRuntimeStateModel,
    gone: Set<Seq<char>>,
    keys: Seq<Seq<char>>,
)
    ensures
        ({
            let less = without_statuses(runtime, gone);
            keys.filter(|key: Seq<char>| !gone.contains(key)).filter(
                |key: Seq<char>| row_at(less, key) is Some,
            ).map_values(|key: Seq<char>| row_at(less, key)->0) == keys.filter(
                |key: Seq<char>| row_at(runtime, key) is Some,
            ).map_values(|key: Seq<char>| row_at(runtime, key)->0).filter(
                |row: PortEvidenceModel| !gone.contains(row.port_id),
            )
        }),
    decreases keys.len(),
{
    reveal(Seq::filter);
    let less = without_statuses(runtime, gone);
    let kept = |key: Seq<char>| !gone.contains(key);
    let some_less = |key: Seq<char>| row_at(less, key) is Some;
    let row_less = |key: Seq<char>| row_at(less, key)->0;
    let some = |key: Seq<char>| row_at(runtime, key) is Some;
    let row = |key: Seq<char>| row_at(runtime, key)->0;
    let stays = |row: PortEvidenceModel| !gone.contains(row.port_id);
    let left = keys.filter(kept).filter(some_less).map_values(row_less);
    let right = keys.filter(some).map_values(row).filter(stays);
    if keys.len() > 0 {
        let rest = keys.drop_last();
        let last = keys.last();
        lemma_rows_without(runtime, gone, rest);
        let left_rest = rest.filter(kept).filter(some_less).map_values(row_less);
        let right_rest = rest.filter(some).map_values(row).filter(stays);
        assert(left_rest == right_rest);
        if kept(last) {
            assert(row_at(less, last) == row_at(runtime, last));
            assert(keys.filter(kept).drop_last() =~= rest.filter(kept));
        }
        if some(last) {
            assert(row(last).port_id == last);
            assert(keys.filter(some).map_values(row) =~= rest.filter(some).map_values(row).push(
                row(last),
            ));
            assert(keys.filter(some).map_values(row).drop_last() =~= rest.filter(some).map_values(
                row,
            ));
        }
        if kept(last) && some(last) {
            assert(left =~= left_rest.push(row(last)));
            assert(right =~= right_rest.push(row(last)));
        } else {
            assert(left =~= left_rest);
            assert(right =~= right_rest);
        }
    } else {
        assert(left =~= right);
    }
}

/// The reports on detached ports are there to be read alone: without their statuses just their
/// rows are missing, and what all ports together allow to conclude is the same.
pub proof fn detached_ports_decide_nothing(
    runtime: NeutronRuntimeStateModel,
    gone: Set<Seq<char>>,
)
    requires
        runtime.ports.dom().finite(),
        runtime.port_statuses.dom().finite(),
        forall|key: Seq<char>| #[trigger]
            gone.contains(key) ==> runtime.port_statuses.dom().contains(key)
                && !runtime.ports.dom().contains(key) && tombstone(
                runtime,
                key,
                runtime.port_statuses[key],
            ) is Some,
    ensures
        reported_rows(without_statuses(runtime, gone)) == reported_rows(runtime).filter(
            |row: PortEvidenceModel| !gone.contains(row.port_id),
        ),
        overall_class(without_statuses(runtime, gone)) == overall_class(runtime),
{
    let less = without_statuses(runtime, gone);
    let kept = |key: Seq<char>| !gone.contains(key);
    let keys = in_order::<String>(runtime.port_statuses.dom());
    let fewer = keys.filter(kept);
    lemma_in_order::<String>(runtime.port_statuses.dom());
    lemma_filter_ascending(keys, kept);
    assert forall|k: Seq<char>| #[trigger] fewer.contains(k) <==> less.port_statuses.dom().contains(
        k,
    ) by {
        if fewer.contains(k) {
            let i = choose|i: int| 0 <= i < fewer.len() && fewer[i] == k;
            keys.lemma_filter_pred(kept, i);
        }
        if less.port_statuses.dom().contains(k) {
            assert(keys.contains(k));
            let i = choose|i: int| 0 <= i < keys.len() && keys[i] == k;
            keys.lemma_filter_contains(kept, i);
        }
    }
    lemma_in_order_is::<String>(less.port_statuses.dom(), fewer);
    lemma_rows_without(runtime, gone, keys);
    assert forall|i: int| 0 <= i < keys.len() && !kept(#[trigger] keys[i]) implies class_at(
        runtime,
        keys[i],
    ) == StatusV1EvidenceClass::Ready by {
        assert(gone.contains(keys[i]));
    }
    lemma_worst_without_ready(runtime, keys, kept);
    assert forall|i: int| 0 <= i < fewer.len() implies class_at(less, #[trigger] fewer[i])
        == class_at(runtime, fewer[i]) by {
        keys.lemma_filter_pred(kept, i);
        assert(row_at(less, fewer[i]) == row_at(runtime, fewer[i]));
    }
    lemma_worst_same(less, runtime, fewer, fewer.len() as int);
    let ports = in_order::<String>(runtime.ports.dom());
    lemma_in_order::<String>(runtime.ports.dom());
    assert forall|i: int| 0 <= i < ports.len() implies class_at(less, #[trigger] ports[i])
        == class_at(runtime, ports[i]) by {
        assert(ports.contains(ports[i]));
        assert(!gone.contains(ports[i]));
        assert(row_at(less, ports[i]) == row_at(runtime, ports[i]));
    }
    lemma_worst_same(less, runtime, ports, ports.len() as int);
}

proof fn lemma_prefix_extends(head: Seq<char>, s: Seq<char>, rest: Seq<char>)
    requires
        has_prefix(s, head),
    ensures
        has_prefix(s + rest, head),
{
    assert((s + rest).take(head.len() as int) =~= s.take(head.len() as int));
}

/// True when a reason says that something asked for is not supported, and asks for nothing to be
/// sent again.
pub open spec fn plainly_unsupported(reason: Seq<char>) -> bool {
    unsupported_reason(Some(reason)) && !resync_reason(Some(reason))
}

proof fn lemma_refusal_head(reason: Seq<char>, head: Seq<char>)
    requires
        has_prefix(reason, head),
        head == "acl_rule_limit_exceeded:"@ || head == "acl_selector_member_limit_exceeded:"@
            || head == "unsupported_acl_"@ || head == "invalid_acl_priority:"@ || head
            == "duplicate_acl_priority:"@ || head == "blocked_by_unimplemented_domains:"@,
    ensures
        plainly_unsupported(reason),
{
    reveal_strlit("acl_rule_limit_exceeded:");
    reveal_strlit("acl_selector_member_limit_exceeded:");
    reveal_strlit("unsupported_acl_");
    reveal_strlit("invalid_acl_priority:");
    reveal_strlit("duplicate_acl_priority:");
    reveal_strlit("blocked_by_unimplemented_domains:");
    reveal_strlit("runtime_rebuild_required");
    reveal_strlit("acl_restart_replay_requires_resync");
    reveal_strlit("tc_acl_link_lost");
    let start = reason.take(head.len() as int);
    assert(start[0] == reason[0] && start[4] == reason[4] && start[5] == reason[5]);
}

proof fn lemma_pair_refusal(
    rules: Seq<NormalizedAclRuleModel>,
    candidate: Option<(usize, usize, bool)>,
    i: int,
    j: int,
)
    ensures
        pair_reason(rules, candidate, i, j) is Some ==> plainly_unsupported(
            pair_reason(rules, candidate, i, j)->0,
        ),
{
    let head = "unsupported_acl_"@;
    let cidr = "unsupported_acl_cidr_overlap:"@;
    let priority = "unsupported_acl_priority_overlap:"@;
    let pair = pair_text(rules[i], rules[j]);
    reveal_strlit("unsupported_acl_");
    reveal_strlit("unsupported_acl_cidr_overlap:");
    reveal_strlit("unsupported_acl_priority_overlap:");
    assert(cidr.take(16) =~= head);
    assert(priority.take(16) =~= head);
    lemma_prefix_extends(head, priority, pair);
    lemma_refusal_head(priority + pair, head);
    lemma_side_refusal("src"@, pair);
    lemma_side_refusal("dst"@, pair);
}

proof fn lemma_side_refusal(side: Seq<char>, pair: Seq<char>)
    ensures
        plainly_unsupported("unsupported_acl_cidr_overlap:"@ + side + ":"@ + pair),
{
    let head = "unsupported_acl_"@;
    let cidr = "unsupported_acl_cidr_overlap:"@;
    reveal_strlit("unsupported_acl_");
    reveal_strlit("unsupported_acl_cidr_overlap:");
    assert(cidr.take(16) =~= head);
    lemma_prefix_extends(head, cidr, side);
    lemma_prefix_extends(head, cidr + side, ":"@);
    lemma_prefix_extends(head, cidr + side + ":"@, pair);
    lemma_refusal_head(cidr + side + ":"@ + pair, head);
}

proof fn lemma_pairs_refusal(
    rules: Seq<NormalizedAclRuleModel>,
    candidate: Option<(usize, usize, bool)>,
    i: int,
    j: int,
)
    requires
        0 <= i < j,
    ensures
        first_pair_reason(rules, candidate, i, j) is Some ==> plainly_unsupported(
            first_pair_reason(rules, candidate, i, j)->0,
        ),
    decreases rules.len() - i, rules.len() - j,
{
    if i >= rules.len() {
    } else if j >= rules.len() {
        lemma_pairs_refusal(rules, candidate, i + 1, i + 2);
    } else {
        lemma_pair_refusal(rules, candidate, i, j);
        if pair_reason(rules, candidate, i, j) is None {
            lemma_pairs_refusal(rules, candidate, i, j + 1);
        }
    }
}

proof fn lemma_priority_refusal(rules: Seq<NormalizedAclRuleModel>, i: int)
    requires
        0 <= i,
    ensures
        first_priority_fault(rules, i) is Some ==> plainly_unsupported(
            first_priority_fault(rules, i)->0,
        ),
    decreases rules.len() - i,
{
    if i < rules.len() {
        let rule = rules[i];
        let value = signed_decimal(rule.priority as int);
        if rule.priority < 0 {
            let head = "invalid_acl_priority:"@;
            assert(head.take(head.len() as int) =~= head);
            lemma_prefix_extends(head, head, rule.id);
            lemma_prefix_extends(head, head + rule.id, ":"@);
            lemma_prefix_extends(head, head + rule.id + ":"@, value);
            lemma_refusal_head(head + rule.id + ":"@ + value, head);
        } else if priority_fault(rules, i) is Some {
            let head = "duplicate_acl_priority:"@;
            let first = rules[first_with_key(rules, rule_key(rule), i)].id;
            let a = head + rule.direction;
            let b = a + ":"@;
            let c = b + value;
            let d = c + ":"@;
            let e = d + first;
            let f = e + ":"@;
            assert(head.take(head.len() as int) =~= head);
            lemma_prefix_extends(head, head, rule.direction);
            lemma_prefix_extends(head, a, ":"@);
            lemma_prefix_extends(head, b, value);
            lemma_prefix_extends(head, c, ":"@);
            lemma_prefix_extends(head, d, first);
            lemma_prefix_extends(head, e, ":"@);
            lemma_prefix_extends(head, f, rule.id);
            lemma_refusal_head(f + rule.id, head);
        } else {
            lemma_priority_refusal(rules, i + 1);
        }
    }
}

proof fn lemma_limit_refusal(side: Seq<char>, id: Seq<char>, members: nat)
    ensures
        side_limit_reason(side, id, members) is Some ==> plainly_unsupported(
            side_limit_reason(side, id, members)->0,
        ),
{
    let head = "acl_selector_member_limit_exceeded:"@;
    let limit = decimal(MAX_ACL_SELECTOR_MEMBERS as nat);
    let a = head + side;
    let b = a + ":"@;
    let c = b + id;
    let d = c + ":"@;
    let e = d + decimal(members);
    let f = e + ":"@;
    assert(head.take(head.len() as int) =~= head);
    lemma_prefix_extends(head, head, side);
    lemma_prefix_extends(head, a, ":"@);
    lemma_prefix_extends(head, b, id);
    lemma_prefix_extends(head, c, ":"@);
    lemma_prefix_extends(head, d, decimal(members));
    lemma_prefix_extends(head, e, ":"@);
    lemma_prefix_extends(head, f, limit);
    lemma_refusal_head(f + limit, head);
}

proof fn lemma_limits_refusal(rules: Seq<NeutronAclRuleSnapshotModel>, i: int)
    requires
        0 <= i,
    ensures
        rules_limit_reason(rules, i) is Some ==> plainly_unsupported(
            rules_limit_reason(rules, i)->0,
        ),
    decreases rules.len() - i,
{
    if i < rules.len() {
        let id = rule_name(rules[i].id, i as nat);
        lemma_limit_refusal("src"@, id, rules[i].src_cidrs.len());
        lemma_limit_refusal("dst"@, id, rules[i].dst_cidrs.len());
        lemma_limits_refusal(rules, i + 1);
    }
}

/// The reasons why rules cannot be enforced count as not supported, and none of them asks for a
/// full resync.
pub proof fn refused_rules_are_unsupported(
    rules: Seq<NormalizedAclRuleModel>,
    src_table: Seq<Seq<CidrModel>>,
    dst_table: Seq<Seq<CidrModel>>,
)
    ensures
        overlap_reason(rules, src_table, dst_table) is Some ==> plainly_unsupported(
            overlap_reason(rules, src_table, dst_table)->0,
        ),
        !unsupported_reason(None),
{
    lemma_priority_refusal(rules, 0);
    let ordered = priority_order(rules);
    lemma_pairs_refusal(ordered, rules_candidate(ordered, src_table, dst_table), 0, 1);
}

/// The reasons why an ACL is too large count as not supported, and none of them asks for a full
/// resync.
pub proof fn oversized_acls_are_unsupported(rules: Seq<NeutronAclRuleSnapshotModel>)
    ensures
        limit_reason(rules) is Some ==> plainly_unsupported(limit_reason(rules)->0),
{
    let head = "acl_rule_limit_exceeded:"@;
    let count = decimal(rules.len());
    let limit = decimal(MAX_ACL_RULES_PER_POLICY as nat);
    assert(head.take(head.len() as int) =~= head);
    lemma_prefix_extends(head, head, count);
    lemma_prefix_extends(head, head + count, ":"@);
    lemma_prefix_extends(head, head + count + ":"@, limit);
    lemma_refusal_head(head + count + ":"@ + limit, head);
    lemma_limits_refusal(rules, 0);
}

/// The reasons that name domains which are not implemented count as not supported, and none of
/// them asks for a full resync.
pub proof fn unimplemented_domains_are_unsupported(domains: Seq<Seq<char>>, domain: Seq<char>)
    ensures
        plainly_unsupported(unimplemented_text(domains)),
        plainly_unsupported(domain + "_transaction_not_implemented"@),
{
    let head = "blocked_by_unimplemented_domains:"@;
    assert(head.take(head.len() as int) =~= head);
    lemma_prefix_extends(head, head, joined(domains, ","@));
    lemma_refusal_head(unimplemented_text(domains), head);
    let tail = "_transaction_not_implemented"@;
    let whole = domain + tail;
    assert(whole.subrange(whole.len() - tail.len(), whole.len() as int) =~= tail);
    reveal_strlit("_transaction_not_implemented");
    reveal_strlit("runtime_rebuild_required");
    reveal_strlit("acl_restart_replay_requires_resync");
    reveal_strlit("tc_acl_link_lost");
    assert(whole.last() == tail.last());
}

} // verus!
