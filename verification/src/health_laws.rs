//! What holds of ports whose interfaces are lost or claimed again.

use crate::domains::{domain_name, normal_domains};
use crate::health::{
    after_link_loss, after_restart, claim_of, claim_port, claim_ports, claim_status, claimed,
    deferred_result, domain_map, domains_by_name, health_by_name, loss_among, loss_projected,
    loss_to_note, lost_acl_state, lost_status, rebuild_status, reconciled_runtime, restart_port,
    restart_ports, restarted, restarted_among, restarted_status, retry_claim, statuses_after_loss,
    HealthModel, ReconcileResultModel,
};
use crate::model::{
    ManagedNeutronPortModel, NeutronDomainStatusModel, NeutronPortStatusModel,
    NeutronRuntimeStateModel,
};
use crate::ordered::{in_order, lemma_in_order, values_in_order};
use crate::plan_laws::keyed_by_id;
use crate::text::{has_part, has_prefix};
use vstd::prelude::*;

verus! {

/// True when the rules of a recorded port are managed.
pub open spec fn has_rules(port: ManagedNeutronPortModel) -> bool {
    exists|i: int|
        0 <= i < port.managed_domains.len() && domain_name(#[trigger] port.managed_domains[i])
            == "acl"@
}

/// True when the health of an interface tells that its rules are no longer in its path.
pub open spec fn tells_loss(seen: HealthModel) -> bool {
    &&& !seen.acl_ready
    &&& seen.readiness_reason matches Some(reason) && (has_prefix(reason, "missing_tc_"@)
        || has_prefix(reason, "acl_quiesce_failed:"@))
}

proof fn lemma_has_rules(port: ManagedNeutronPortModel)
    ensures
        crate::domains::manages_acl(port.managed_domains) == has_rules(port),
{
    reveal_strlit("acl");
    assert("acl"@.len() > 0);
}

proof fn lemma_health_by_name(health: Seq<HealthModel>, n: int, name: Seq<char>)
    requires
        0 <= n <= health.len(),
    ensures
        health_by_name(health, n).dom().contains(name) <==> exists|i: int|
            0 <= i < n && (#[trigger] health[i]).name == name,
        health_by_name(health, n).dom().contains(name) ==> exists|i: int|
            0 <= i < n && (#[trigger] health[i]).name == name && health_by_name(health, n)[name]
                == health[i],
    decreases n,
{
    if n > 0 {
        lemma_health_by_name(health, n - 1, name);
        if health[n - 1].name == name {
            assert(health_by_name(health, n)[name] == health[n - 1]);
        }
    }
}

proof fn lemma_loss_at(
    statuses: Map<Seq<char>, NeutronPortStatusModel>,
    ports: Seq<ManagedNeutronPortModel>,
    health: Map<Seq<char>, HealthModel>,
    n: int,
    j: int,
)
    requires
        0 <= n <= ports.len(),
        0 <= j < ports.len(),
        forall|a: int, b: int|
            0 <= a < b < ports.len() ==> (#[trigger] ports[a]).port_id != (
            #[trigger] ports[b]).port_id,
    ensures
        ({
            let next = statuses_after_loss(statuses, ports, health, n);
            let k = ports[j].port_id;
            &&& next.dom().contains(k) == statuses.dom().contains(k)
            &&& next[k] == if j < n && loss_to_note(statuses, ports[j], health) {
                lost_status(statuses[k])
            } else {
                statuses[k]
            }
            &&& loss_among(statuses, ports, health, n) <==> exists|i: int|
                0 <= i < n && loss_to_note(statuses, #[trigger] ports[i], health)
        }),
    decreases n,
{
    if n > 0 {
        lemma_loss_at(statuses, ports, health, n - 1, j);
        lemma_loss_at(statuses, ports, health, n - 1, n - 1);
        let before = statuses_after_loss(statuses, ports, health, n - 1);
        let last = ports[n - 1];
        assert(before[last.port_id] == statuses[last.port_id]);
        assert(loss_to_note(before, last, health) == loss_to_note(statuses, last, health));
        if j != n - 1 {
            if j < n - 1 {
                assert(ports[j].port_id != ports[n - 1].port_id);
            } else {
                assert(ports[n - 1].port_id != ports[j].port_id);
            }
        }
    }
}

proof fn lemma_ports_distinct(ports: Map<Seq<char>, ManagedNeutronPortModel>)
    requires
        ports.dom().finite(),
        keyed_by_id(ports),
    ensures
        ({
            let list = values_in_order::<String, ManagedNeutronPortModel>(ports);
            &&& forall|a: int, b: int|
                0 <= a < b < list.len() ==> (#[trigger] list[a]).port_id != (
                #[trigger] list[b]).port_id
            &&& forall|k: Seq<char>| #[trigger] ports.dom().contains(k) ==> list.contains(ports[k])
            &&& forall|i: int|
                0 <= i < list.len() ==> ports.dom().contains((#[trigger] list[i]).port_id)
                    && ports[list[i].port_id] == list[i]
        }),
{
    let keys = in_order::<String>(ports.dom());
    lemma_in_order::<String>(ports.dom());
    let list = values_in_order::<String, ManagedNeutronPortModel>(ports);
    assert forall|i: int| 0 <= i < list.len() implies ports.dom().contains(
        (#[trigger] list[i]).port_id,
    ) && ports[list[i].port_id] == list[i] && list[i].port_id == keys[i] by {
        assert(keys.contains(keys[i]));
        assert(list[i] == ports[keys[i]]);
    }
    assert forall|a: int, b: int| 0 <= a < b < list.len() implies (#[trigger] list[a]).port_id != (
    #[trigger] list[b]).port_id by {
        crate::text::text_before_irreflexive(keys[a]);
        assert(crate::text::text_before(keys[a], keys[b]));
    }
    assert forall|k: Seq<char>| #[trigger] ports.dom().contains(k) implies list.contains(
        ports[k],
    ) by {
        assert(keys.contains(k));
        let i = keys.index_of(k);
        assert(list[i] == ports[k]);
    }
}

/// True when a reason asks that everything be sent again.
pub open spec fn names_resync(reason: Option<Seq<char>>) -> bool {
    reason matches Some(text) && (has_part(text, "requires_resync"@) || has_part(
        text,
        "full_resync"@,
    ))
}

/// True when a status asks, for the port or for one of its domains, that everything be sent again.
pub open spec fn asks_for_resync(status: NeutronPortStatusModel) -> bool {
    names_resync(status.reason) || exists|i: int|
        0 <= i < status.domains.len() && names_resync((#[trigger] status.domains[i]).reason)
}

/// True when nothing is pending, and neither a recovery nor a full resync is called for.
pub open spec fn at_rest(runtime: NeutronRuntimeStateModel) -> bool {
    &&& runtime.pending_generation is None
    &&& runtime.authority_state != "blocked_recovery_required"@
    &&& runtime.authority_state != "recovered_pending_full_resync_required"@
    &&& runtime.authority_state != "recovered_pending_full_resync"@
    &&& runtime.authority_state != "wal_recovery_commit_failed"@
    &&& runtime.authority_state != "pending_recovery_commit_failed"@
    &&& runtime.authority_state != "runtime_reconcile_requires_full_resync"@
    &&& runtime.authority_state != "wal_runtime_reconcile_commit_failed"@
    &&& runtime.wal_status != "commit_failed"@
    &&& runtime.wal_status != "intent_recovery_blocked"@
    &&& runtime.wal_status != "intent_recovered"@
    &&& runtime.wal_status != "pending_recovered_to_last_applied"@
    &&& runtime.wal_status != "runtime_reconciled_acl_resync_required"@
}

/// The status of a port changes only where its rules are managed and its interface is seen to have
/// lost them; then it is degraded for that reason, and its rules are said to filter nothing. The
/// agent is degraded exactly where a port is.
pub proof fn only_lost_links_degrade(
    runtime: NeutronRuntimeStateModel,
    health: Seq<HealthModel>,
    k: Seq<char>,
)
    requires
        runtime.ports.dom().finite(),
        keyed_by_id(runtime.ports),
        runtime.ports.dom().contains(k),
        runtime.port_statuses.dom().contains(k),
    ensures
        ({
            let port = runtime.ports[k];
            let before = runtime.port_statuses[k];
            let after = after_link_loss(runtime, health).port_statuses[k];
            &&& after != before ==> {
                &&& runtime.pending_generation is None
                &&& has_rules(port)
                &&& exists|i: int|
                    0 <= i < health.len() && (#[trigger] health[i]).name == port.ifname
                        && tells_loss(health[i])
                &&& after.status == "degraded"@
                &&& after.reason == Some("tc_acl_link_lost"@)
                &&& after.port_id == before.port_id
                &&& after.ifname == before.ifname
                &&& after.generation == before.generation
                &&& after.desired_hash == before.desired_hash
                &&& after.managed_domains == before.managed_domains
                &&& exists|i: int|
                    0 <= i < after.domains.len() && (#[trigger] after.domains[i]).domain == "acl"@
                        && after.domains[i].status == "degraded"@ && after.domains[i].reason == Some(
                        "tc_acl_link_lost"@,
                    ) && after.domains[i].effective_action == Some("bypass"@)
                &&& after_link_loss(runtime, health).authority_state == "runtime_degraded"@
            }
        }),
{
    let list = values_in_order::<String, ManagedNeutronPortModel>(runtime.ports);
    let seen = health_by_name(health, health.len() as int);
    lemma_ports_distinct(runtime.ports);
    let j = list.index_of(runtime.ports[k]);
    assert(list.contains(runtime.ports[k]));
    lemma_loss_at(runtime.port_statuses, list, seen, list.len() as int, j);
    let after = after_link_loss(runtime, health).port_statuses[k];
    if after != runtime.port_statuses[k] {
        lemma_has_rules(list[j]);
        lemma_health_by_name(health, health.len() as int, list[j].ifname);
        lemma_lost_domains(runtime.port_statuses[k]);
    }
}

proof fn lemma_lost_domains(status: NeutronPortStatusModel)
    ensures
        exists|i: int|
            0 <= i < lost_status(status).domains.len() && (
            #[trigger] lost_status(status).domains[i]) == lost_acl_state(),
{
    let domains = domain_map(status.domains).insert("acl"@, lost_acl_state());
    lemma_domain_map_finite(status.domains, status.domains.len() as int);
    lemma_in_order::<String>(domains.dom());
    let keys = in_order::<String>(domains.dom());
    assert(domains.dom().contains("acl"@));
    assert(keys.contains("acl"@));
    let i = keys.index_of("acl"@);
    assert(lost_status(status).domains[i] == lost_acl_state());
}

proof fn lemma_domain_map_finite(domains: Seq<NeutronDomainStatusModel>, n: int)
    ensures
        domains_by_name(domains, n).dom().finite(),
    decreases n,
{
    if n > 0 {
        lemma_domain_map_finite(domains, n - 1);
    }
}

/// A lost link does not go unseen: where nothing is pending or to be recovered, a port whose rules
/// are managed and whose interface has lost them is degraded, unless it already asks for everything
/// to be sent again.
pub proof fn lost_links_are_noted(
    runtime: NeutronRuntimeStateModel,
    health: Seq<HealthModel>,
    k: Seq<char>,
)
    requires
        runtime.ports.dom().finite(),
        keyed_by_id(runtime.ports),
        runtime.ports.dom().contains(k),
        runtime.port_statuses.dom().contains(k),
        has_rules(runtime.ports[k]),
        exists|i: int|
            0 <= i < health.len() && (#[trigger] health[i]).name == runtime.ports[k].ifname,
        forall|i: int|
            0 <= i < health.len() && (#[trigger] health[i]).name == runtime.ports[k].ifname
                ==> tells_loss(health[i]),
        at_rest(runtime),
        !asks_for_resync(runtime.port_statuses[k]),
    ensures
        ({
            let after = after_link_loss(runtime, health).port_statuses[k];
            &&& after.status == "degraded"@
            &&& after.reason == Some("tc_acl_link_lost"@)
            &&& exists|i: int|
                0 <= i < after.domains.len() && (#[trigger] after.domains[i]).domain == "acl"@
                    && after.domains[i].status == "degraded"@ && after.domains[i].effective_action
                    == Some("bypass"@)
        }),
{
    let list = values_in_order::<String, ManagedNeutronPortModel>(runtime.ports);
    let seen = health_by_name(health, health.len() as int);
    lemma_ports_distinct(runtime.ports);
    let j = list.index_of(runtime.ports[k]);
    assert(list.contains(runtime.ports[k]));
    lemma_loss_at(runtime.port_statuses, list, seen, list.len() as int, j);
    lemma_has_rules(list[j]);
    lemma_health_by_name(health, health.len() as int, list[j].ifname);
    let before = runtime.port_statuses[k];
    if loss_to_note(runtime.port_statuses, list[j], seen) {
        assert(loss_to_note(runtime.port_statuses, list[j], seen));
        lemma_lost_domains(before);
        assert(loss_projected(runtime, health));
    } else {
        assert(crate::health::loss_noted(before));
        let i = choose|i: int|
            0 <= i < before.domains.len() && #[trigger] before.domains[i] == lost_acl_state();
        assert(before.domains[i].domain == "acl"@);
    }
}

/// As long as a snapshot is pending or a recovery or a full resync is called for, what is seen of the
/// links changes nothing.
pub proof fn links_are_not_judged_meanwhile(
    runtime: NeutronRuntimeStateModel,
    health: Seq<HealthModel>,
)
    ensures
        !at_rest(runtime) ==> after_link_loss(runtime, health) == runtime,
        health.len() == 0 ==> after_link_loss(runtime, health) == runtime,
{
    if health.len() == 0 {
        let list = values_in_order::<String, ManagedNeutronPortModel>(runtime.ports);
        lemma_none_seen(runtime.port_statuses, list, list.len() as int);
    }
}

proof fn lemma_none_seen(
    statuses: Map<Seq<char>, NeutronPortStatusModel>,
    ports: Seq<ManagedNeutronPortModel>,
    n: int,
)
    ensures
        !loss_among(statuses, ports, Map::empty(), n),
    decreases n,
{
    if n > 0 {
        lemma_none_seen(statuses, ports, n - 1);
    }
}

/// A claim is put off only where it was blocked for an interface that is missing; then it waits for
/// the interface to be rebuilt.
pub proof fn only_missing_interfaces_are_waited_for(
    result: ReconcileResultModel,
    missing: Set<Seq<char>>,
)
    ensures
        ({
            let told = deferred_result(result, missing);
            let waits = result.action == "claim_committed"@ && result.status == "blocked"@
                && missing.contains(result.ifname);
            &&& waits ==> told.status == "deferred"@ && told.reason == Some(
                "runtime_rebuild_required"@,
            ) && told.ifname == result.ifname && told.action == result.action
            &&& !waits ==> told == result
        }),
{
}

/// Claims are tried again exactly where nothing is pending, a full resync is called for, and a
/// managed port whose interface is there again has no status or waits to be rebuilt.
pub proof fn claims_are_tried_again_when_interfaces_return(
    runtime: NeutronRuntimeStateModel,
    live: Set<Seq<char>>,
)
    ensures
        retry_claim(runtime, live) <==> {
            &&& runtime.pending_generation is None
            &&& runtime.authority_state == "recovered_pending_full_resync_required"@
                || runtime.authority_state == "runtime_reconcile_requires_full_resync"@
            &&& exists|k: Seq<char>| #[trigger]
                runtime.ports.dom().contains(k) && live.contains(runtime.ports[k].ifname) && (
                !runtime.port_statuses.dom().contains(runtime.ports[k].port_id)
                    || runtime.port_statuses[runtime.ports[k].port_id].reason == Some(
                    "runtime_rebuild_required"@,
                ))
        },
{
    if retry_claim(runtime, live) {
        let k = choose|k: Seq<char>| #[trigger] crate::health::awaits_rebuild(runtime, live, k);
        assert(runtime.ports.dom().contains(k));
    }
    if exists|k: Seq<char>| #[trigger]
        runtime.ports.dom().contains(k) && live.contains(runtime.ports[k].ifname) && (
        !runtime.port_statuses.dom().contains(runtime.ports[k].port_id)
            || runtime.port_statuses[runtime.ports[k].port_id].reason == Some(
            "runtime_rebuild_required"@,
        )) {
        let k = choose|k: Seq<char>| #[trigger]
            runtime.ports.dom().contains(k) && live.contains(runtime.ports[k].ifname) && (
            !runtime.port_statuses.dom().contains(runtime.ports[k].port_id)
                || runtime.port_statuses[runtime.ports[k].port_id].reason == Some(
                "runtime_rebuild_required"@,
            ));
        assert(crate::health::awaits_rebuild(runtime, live, k));
    }
}

proof fn lemma_claims_at(
    runtime: NeutronRuntimeStateModel,
    ports: Seq<ManagedNeutronPortModel>,
    generation: u64,
    desired_hash: Option<Seq<char>>,
    results: Seq<ReconcileResultModel>,
    n: int,
    j: int,
)
    requires
        0 <= n <= ports.len(),
        0 <= j < ports.len(),
        forall|a: int, b: int|
            0 <= a < b < ports.len() ==> (#[trigger] ports[a]).port_id != (
            #[trigger] ports[b]).port_id,
    ensures
        ({
            let next = claim_ports(runtime, ports, generation, desired_hash, results, n);
            let once = claim_port(runtime, ports[j], generation, desired_hash, results);
            let k = ports[j].port_id;
            &&& next.ports.dom().contains(k) == runtime.ports.dom().contains(k)
            &&& j < n ==> next.ports[k] == once.ports[k] && next.port_statuses[k]
                == once.port_statuses[k] && next.port_statuses.dom().contains(k)
                == once.port_statuses.dom().contains(k)
            &&& j >= n ==> next.ports[k] == runtime.ports[k] && next.port_statuses[k]
                == runtime.port_statuses[k] && next.port_statuses.dom().contains(k)
                == runtime.port_statuses.dom().contains(k)
        }),
    decreases n,
{
    if n > 0 {
        lemma_claims_at(runtime, ports, generation, desired_hash, results, n - 1, j);
        if j < n - 1 {
            assert(ports[j].port_id != ports[n - 1].port_id);
        } else if j > n - 1 {
            assert(ports[n - 1].port_id != ports[j].port_id);
        }
    }
}

proof fn lemma_restarts_at(
    runtime: NeutronRuntimeStateModel,
    ports: Seq<ManagedNeutronPortModel>,
    n: int,
    k: Seq<char>,
)
    requires
        0 <= n <= ports.len(),
        forall|a: int, b: int|
            0 <= a < b < ports.len() ==> (#[trigger] ports[a]).port_id != (
            #[trigger] ports[b]).port_id,
    ensures
        ({
            let next = restart_ports(runtime, ports, n);
            &&& next.ports.dom().contains(k) == runtime.ports.dom().contains(k)
            &&& next.port_statuses.dom().contains(k) == runtime.port_statuses.dom().contains(k)
            &&& forall|j: int|
                0 <= j < n && (#[trigger] ports[j]).port_id == k ==> {
                    let once = restart_port(runtime, ports[j]);
                    next.ports[k] == once.ports[k] && next.port_statuses[k]
                        == once.port_statuses[k]
                }
            &&& (forall|j: int| 0 <= j < n ==> (#[trigger] ports[j]).port_id != k)
                ==> next.ports[k] == runtime.ports[k] && next.port_statuses[k]
                == runtime.port_statuses[k]
        }),
    decreases n,
{
    if n > 0 {
        lemma_restarts_at(runtime, ports, n - 1, k);
        let before = restart_ports(runtime, ports, n - 1);
        let next = restart_ports(runtime, ports, n);
        assert forall|j: int| 0 <= j < n && (#[trigger] ports[j]).port_id == k implies {
            let once = restart_port(runtime, ports[j]);
            next.ports[k] == once.ports[k] && next.port_statuses[k] == once.port_statuses[k]
        } by {
            if j < n - 1 {
                assert(ports[j].port_id != ports[n - 1].port_id);
            } else {
                assert forall|i: int| 0 <= i < n - 1 implies (#[trigger] ports[i]).port_id != k by {
                    assert(ports[i].port_id != ports[n - 1].port_id);
                }
            }
        }
    }
}

proof fn lemma_restarted_among(
    runtime: NeutronRuntimeStateModel,
    ports: Seq<ManagedNeutronPortModel>,
    n: int,
)
    requires
        0 <= n <= ports.len(),
        forall|a: int, b: int|
            0 <= a < b < ports.len() ==> (#[trigger] ports[a]).port_id != (
            #[trigger] ports[b]).port_id,
    ensures
        restarted_among(runtime, ports, n) <==> exists|i: int|
            0 <= i < n && restarted(runtime, #[trigger] ports[i]),
    decreases n,
{
    if n > 0 {
        lemma_restarted_among(runtime, ports, n - 1);
        lemma_restarts_at(runtime, ports, n - 1, ports[n - 1].port_id);
        assert(restarted(restart_ports(runtime, ports, n - 1), ports[n - 1]) == restarted(
            runtime,
            ports[n - 1],
        ));
    }
}

proof fn lemma_ready_ports(
    ports: Seq<ManagedNeutronPortModel>,
    results: Seq<ReconcileResultModel>,
)
    requires
        forall|a: int, b: int|
            0 <= a < b < ports.len() ==> (#[trigger] ports[a]).port_id != (
            #[trigger] ports[b]).port_id,
    ensures
        ({
            let ready = ports.filter(|port: ManagedNeutronPortModel| claimed(port, results));
            &&& forall|a: int, b: int|
                0 <= a < b < ready.len() ==> (#[trigger] ready[a]).port_id != (
                #[trigger] ready[b]).port_id
            &&& forall|p: ManagedNeutronPortModel| #[trigger]
                ready.contains(p) <==> ports.contains(p) && claimed(p, results)
        }),
    decreases ports.len(),
{
    let f = |port: ManagedNeutronPortModel| claimed(port, results);
    let ready = ports.filter(f);
    assert forall|p: ManagedNeutronPortModel| #[trigger] ready.contains(p) <==> ports.contains(p)
        && claimed(p, results) by {
        if ready.contains(p) {
            let i = ready.index_of(p);
            ports.lemma_filter_pred(f, i);
            ports.lemma_filter_contains_rev(f, p);
        }
        if ports.contains(p) && claimed(p, results) {
            ports.lemma_filter_contains(f, ports.index_of(p));
        }
    }
    if ports.len() > 0 {
        let rest = ports.drop_last();
        assert forall|a: int, b: int| 0 <= a < b < rest.len() implies (#[trigger] rest[a]).port_id
            != (#[trigger] rest[b]).port_id by {
            assert(ports[a].port_id != ports[b].port_id);
        }
        lemma_ready_ports(rest, results);
        let before = rest.filter(f);
        reveal(Seq::filter);
        assert(ready == if f(ports.last()) {
            before.push(ports.last())
        } else {
            before
        });
        assert forall|a: int, b: int| 0 <= a < b < ready.len() implies (#[trigger] ready[a]).port_id
            != (#[trigger] ready[b]).port_id by {
            if b < before.len() {
                assert(before[a].port_id != before[b].port_id);
            } else {
                assert(before.contains(before[a]));
                assert(rest.contains(before[a]));
                let i = rest.index_of(before[a]);
                assert(ports[i].port_id != ports[ports.len() - 1].port_id);
            }
        }
    }
}

proof fn lemma_claim_found(results: Seq<ReconcileResultModel>, ifname: Seq<char>, i: int)
    requires
        0 <= i,
    ensures
        claim_of(results, ifname, i) matches Some(result) ==> results.contains(result)
            && result.ifname == ifname && result.action == "claim_committed"@,
        claim_of(results, ifname, i) is None ==> forall|j: int|
            i <= j < results.len() ==> !((#[trigger] results[j]).ifname == ifname
                && results[j].action == "claim_committed"@),
    decreases results.len() - i,
{
    if i < results.len() {
        if !(results[i].ifname == ifname && results[i].action == "claim_committed"@) {
            lemma_claim_found(results, ifname, i + 1);
        }
    }
}

/// After a restart no rules are taken on trust. A port whose interface was claimed again, and whose
/// rules are managed, forgets the hash of its rules, so that the next snapshot brings them about
/// again, and is degraded until then; without rules it is ready. A port whose interface is missing
/// forgets its index too, and waits to be rebuilt; a port that could not be claimed is blocked.
pub proof fn restarted_ports_are_not_trusted(
    previous: NeutronRuntimeStateModel,
    generation: u64,
    desired_hash: Option<Seq<char>>,
    results: Seq<ReconcileResultModel>,
    missing: bool,
    k: Seq<char>,
    result: ReconcileResultModel,
)
    requires
        previous.ports.dom().finite(),
        keyed_by_id(previous.ports),
        previous.ports.dom().contains(k),
        results.contains(result),
        result.ifname == previous.ports[k].ifname,
        result.action == "claim_committed"@,
        forall|i: int|
            0 <= i < results.len() && (#[trigger] results[i]).ifname == result.ifname
                && results[i].action == "claim_committed"@ ==> results[i] == result,
    ensures
        ({
            let ports = values_in_order::<String, ManagedNeutronPortModel>(previous.ports);
            let next = reconciled_runtime(
                previous,
                ports,
                generation,
                desired_hash,
                results,
                missing,
            );
            let port = previous.ports[k];
            let status = next.port_statuses[k];
            &&& next.ports.dom().contains(k)
            &&& next.port_statuses.dom().contains(k)
            &&& next.ports[k].port_id == k
            &&& next.ports[k].ifname == port.ifname
            &&& next.ports[k].managed_domains == port.managed_domains
            &&& status.port_id == k
            &&& status.ifname == port.ifname
            &&& status.generation == generation
            &&& status.desired_hash == desired_hash
            &&& result.status == "ready"@ && has_rules(port) ==> {
                &&& !next.ports[k].domain_desired_hashes.dom().contains("acl"@)
                &&& status.status == "degraded"@
                &&& status.reason == Some("acl_restart_replay_requires_resync"@)
                &&& exists|i: int|
                    0 <= i < status.domains.len() && (#[trigger] status.domains[i]).domain == "acl"@
                        && status.domains[i].status == "degraded"@
                        && status.domains[i].effective_action == Some("unchanged"@)
                &&& next.authority_state != "ready"@ || previous.pending_generation is Some
            }
            &&& result.status == "ready"@ && !has_rules(port) ==> {
                &&& next.ports[k] == port
                &&& status.status == "ready"@
            }
            &&& result.status == "deferred"@ ==> {
                &&& !next.ports[k].domain_desired_hashes.dom().contains("acl"@)
                &&& next.ports[k].ifindex is None
                &&& status.status == "degraded"@
                &&& status.reason == Some("runtime_rebuild_required"@)
            }
            &&& result.status != "ready"@ && result.status != "deferred"@ ==> {
                &&& next.ports[k] == port
                &&& status.status == "blocked"@
                &&& status.reason == result.reason
            }
        }),
{
    reveal_strlit("ready");
    reveal_strlit("deferred");
    reveal_strlit("runtime_degraded");
    reveal_strlit("runtime_reconcile_requires_full_resync");
    assert("ready"@.len() == 5 && "deferred"@.len() == 8);
    assert("runtime_degraded"@.len() == 16);
    assert("runtime_reconcile_requires_full_resync"@.len() == 38);
    let ports = values_in_order::<String, ManagedNeutronPortModel>(previous.ports);
    lemma_ports_distinct(previous.ports);
    let port = previous.ports[k];
    assert(ports.contains(port));
    let j = ports.index_of(port);
    let claims = claim_ports(
        previous,
        ports,
        generation,
        desired_hash,
        results,
        ports.len() as int,
    );
    lemma_claim_found(results, port.ifname, 0);
    let r = results.index_of(result);
    assert(results[r].ifname == port.ifname);
    assert(claim_of(results, port.ifname, 0) == Some(result));
    lemma_claims_at(
        previous,
        ports,
        generation,
        desired_hash,
        results,
        ports.len() as int,
        j,
    );
    let ready = ports.filter(|port: ManagedNeutronPortModel| claimed(port, results));
    lemma_ready_ports(ports, results);
    lemma_restarts_at(claims, ready, ready.len() as int, k);
    lemma_restarted_among(claims, ready, ready.len() as int);
    lemma_has_rules(port);
    if result.status == "ready"@ {
        assert(claimed(port, results));
        assert(ready.contains(port));
        let q = ready.index_of(port);
        assert(ready[q].port_id == k);
        if has_rules(port) {
            assert(restarted(claims, ready[q]));
            lemma_restart_domains(claims.port_statuses[k]);
            lemma_claims_state(
                previous,
                ports,
                generation,
                desired_hash,
                results,
                ports.len() as int,
            );
        }
    } else {
        assert forall|q: int| 0 <= q < ready.len() implies (#[trigger] ready[q]).port_id != k by {
            assert(ready.contains(ready[q]));
            if ready[q].port_id == k {
                assert(ports.contains(ready[q]));
                let p = ports.index_of(ready[q]);
                assert(previous.ports[ports[p].port_id] == ports[p]);
                assert(ready[q] == port);
                assert(false);
            }
        }
    }
}

proof fn lemma_restart_domains(status: NeutronPortStatusModel)
    ensures
        exists|i: int|
            0 <= i < restarted_status(status).domains.len() && (#[trigger] restarted_status(
                status,
            ).domains[i]).domain == "acl"@ && restarted_status(status).domains[i].status
                == "degraded"@ && restarted_status(status).domains[i].effective_action == Some(
                "unchanged"@,
            ),
{
    let after = restarted_status(status);
    let attach = crate::status::domain_state("attach"@, "ready"@, None, None);
    let acl = crate::status::domain_state(
        "acl"@,
        "degraded"@,
        Some("acl_restart_replay_requires_resync"@),
        Some("unchanged"@),
    );
    let domains = domain_map(status.domains).insert("attach"@, attach).insert("acl"@, acl);
    lemma_domain_map_finite(status.domains, status.domains.len() as int);
    lemma_in_order::<String>(domains.dom());
    let keys = in_order::<String>(domains.dom());
    assert(domains.dom().contains("acl"@));
    assert(keys.contains("acl"@));
    let i = keys.index_of("acl"@);
    assert(after.domains[i] == acl);
}

/// The agent is ready after a restart only where every claim held, no port has rules to bring about
/// again, no interface is missing, and nothing is pending.
pub proof fn restarts_are_ready_only_without_rules(
    previous: NeutronRuntimeStateModel,
    generation: u64,
    desired_hash: Option<Seq<char>>,
    results: Seq<ReconcileResultModel>,
    missing: bool,
)
    requires
        previous.authority_state != "ready"@,
        previous.ports.dom().finite(),
        reconciled_runtime(
            previous,
            values_in_order::<String, ManagedNeutronPortModel>(previous.ports),
            generation,
            desired_hash,
            results,
            missing,
        ).authority_state == "ready"@,
    ensures
        previous.pending_generation is None,
        !missing,
        forall|i: int| 0 <= i < results.len() ==> (#[trigger] results[i]).status != "blocked"@,
{
    reveal_strlit("ready");
    reveal_strlit("runtime_degraded");
    reveal_strlit("runtime_reconcile_requires_full_resync");
    assert("ready"@.len() == 5);
    assert("runtime_degraded"@.len() == 16);
    assert("runtime_reconcile_requires_full_resync"@.len() == 38);
    let ports = values_in_order::<String, ManagedNeutronPortModel>(previous.ports);
    let n = ports.len() as int;
    lemma_claims_state(previous, ports, generation, desired_hash, results, n);
    let claims = claim_ports(previous, ports, generation, desired_hash, results, n);
    let ready = ports.filter(|port: ManagedNeutronPortModel| claimed(port, results));
    lemma_restarts_state(claims, ready, ready.len() as int);
    assert(after_restart(claims, ready).authority_state != "ready"@);
}

proof fn lemma_claims_state(
    runtime: NeutronRuntimeStateModel,
    ports: Seq<ManagedNeutronPortModel>,
    generation: u64,
    desired_hash: Option<Seq<char>>,
    results: Seq<ReconcileResultModel>,
    n: int,
)
    ensures
        claim_ports(runtime, ports, generation, desired_hash, results, n).authority_state
            == runtime.authority_state,
        claim_ports(runtime, ports, generation, desired_hash, results, n).pending_generation
            == runtime.pending_generation,
        claim_ports(runtime, ports, generation, desired_hash, results, n).wal_status
            == runtime.wal_status,
    decreases n,
{
    if n > 0 {
        lemma_claims_state(runtime, ports, generation, desired_hash, results, n - 1);
    }
}

proof fn lemma_restarts_state(
    runtime: NeutronRuntimeStateModel,
    ports: Seq<ManagedNeutronPortModel>,
    n: int,
)
    ensures
        restart_ports(runtime, ports, n).authority_state == runtime.authority_state,
        restart_ports(runtime, ports, n).pending_generation == runtime.pending_generation,
        restart_ports(runtime, ports, n).wal_status == runtime.wal_status,
    decreases n,
{
    if n > 0 {
        lemma_restarts_state(runtime, ports, n - 1);
    }
}

proof fn lemma_domain_map(domains: Seq<NeutronDomainStatusModel>, n: int, name: Seq<char>)
    requires
        0 <= n <= domains.len(),
    ensures
        ({
            let by_name = domains_by_name(domains, n);
            &&& by_name.dom().contains(name) ==> by_name[name].domain == name && exists|i: int|
                0 <= i < n && #[trigger] domains[i] == by_name[name]
            &&& forall|i: int|
                0 <= i < n && (#[trigger] domains[i]).domain == name ==> by_name.dom().contains(name)
            &&& forall|i: int|
                0 <= i < n && (#[trigger] domains[i]).domain == name && (forall|j: int|
                    i < j < n ==> (#[trigger] domains[j]).domain != name) ==> by_name[name]
                    == domains[i]
        }),
    decreases n,
{
    if n > 0 {
        lemma_domain_map(domains, n - 1, name);
        let before = domains_by_name(domains, n - 1);
        let after = domains_by_name(domains, n);
        if domains[n - 1].domain != name {
            assert(after[name] == before[name]);
        }
        assert forall|i: int|
            0 <= i < n && (#[trigger] domains[i]).domain == name && (forall|j: int|
                i < j < n ==> (#[trigger] domains[j]).domain != name) implies after[name]
            == domains[i] by {
            if i < n - 1 {
                assert(domains[n - 1].domain != name);
            }
        }
    }
}

/// True when of the domains of a status all that are not named here are told as before, and none is
/// added.
pub open spec fn other_domains_stay(
    before: Seq<NeutronDomainStatusModel>,
    after: Seq<NeutronDomainStatusModel>,
    changed: Set<Seq<char>>,
) -> bool {
    &&& forall|i: int|
        0 <= i < after.len() ==> changed.contains((#[trigger] after[i]).domain) || before.contains(
            after[i],
        )
    &&& forall|i: int|
        0 <= i < before.len() && !changed.contains((#[trigger] before[i]).domain) && (forall|j: int|
            i < j < before.len() ==> (#[trigger] before[j]).domain != before[i].domain)
            ==> after.contains(before[i])
}

proof fn lemma_other_domains(
    before: Seq<NeutronDomainStatusModel>,
    map: Map<Seq<char>, NeutronDomainStatusModel>,
    changed: Set<Seq<char>>,
)
    requires
        map.dom().finite(),
        forall|k: Seq<char>| #[trigger] map.dom().contains(k) ==> map[k].domain == k,
        forall|k: Seq<char>|
            !changed.contains(k) ==> #[trigger] map.dom().contains(k) == domain_map(
                before,
            ).dom().contains(k) && map[k] == domain_map(before)[k],
    ensures
        other_domains_stay(
            before,
            values_in_order::<String, NeutronDomainStatusModel>(map),
            changed,
        ),
{
    let after = values_in_order::<String, NeutronDomainStatusModel>(map);
    let keys = in_order::<String>(map.dom());
    lemma_in_order::<String>(map.dom());
    assert forall|i: int| 0 <= i < after.len() implies changed.contains(
        (#[trigger] after[i]).domain,
    ) || before.contains(after[i]) by {
        assert(keys.contains(keys[i]));
        assert(map.dom().contains(keys[i]));
        assert(after[i] == map[keys[i]]);
        lemma_domain_map(before, before.len() as int, keys[i]);
    }
    assert forall|i: int|
        0 <= i < before.len() && !changed.contains((#[trigger] before[i]).domain) && (forall|j: int|
            i < j < before.len() ==> (#[trigger] before[j]).domain
                != before[i].domain) implies after.contains(before[i]) by {
        let k = before[i].domain;
        lemma_domain_map(before, before.len() as int, k);
        assert(domain_map(before).dom().contains(k));
        assert(map.dom().contains(k));
        assert(keys.contains(k));
        let q = keys.index_of(k);
        assert(after[q] == map[k]);
    }
}

proof fn lemma_map_named(domains: Seq<NeutronDomainStatusModel>)
    ensures
        forall|k: Seq<char>| #[trigger]
            domain_map(domains).dom().contains(k) ==> domain_map(domains)[k].domain == k,
{
    assert forall|k: Seq<char>| #[trigger] domain_map(domains).dom().contains(
        k,
    ) implies domain_map(domains)[k].domain == k by {
        lemma_domain_map(domains, domains.len() as int, k);
    }
}

/// A lost link is told of the rules alone, and a restart of the rules and the attachment alone: the
/// other domains of the port are told as before.
pub proof fn other_domains_are_told_as_before(status: NeutronPortStatusModel)
    ensures
        other_domains_stay(status.domains, lost_status(status).domains, set!["acl"@]),
        other_domains_stay(
            status.domains,
            restarted_status(status).domains,
            set!["acl"@, "attach"@],
        ),
        restarted_status(status).status == "degraded"@,
        restarted_status(status).port_id == status.port_id,
        restarted_status(status).generation == status.generation,
{
    let base = domain_map(status.domains);
    lemma_domain_map_finite(status.domains, status.domains.len() as int);
    lemma_map_named(status.domains);
    lemma_other_domains(
        status.domains,
        base.insert("acl"@, lost_acl_state()),
        set!["acl"@],
    );
    let attach = crate::status::domain_state("attach"@, "ready"@, None, None);
    let acl = crate::status::domain_state(
        "acl"@,
        "degraded"@,
        Some("acl_restart_replay_requires_resync"@),
        Some("unchanged"@),
    );
    lemma_other_domains(
        status.domains,
        base.insert("attach"@, attach).insert("acl"@, acl),
        set!["acl"@, "attach"@],
    );
}

/// A port that waits to be rebuilt says of its rules that they let everything through, and of its
/// other domains that they are blocked; a port whose claim was answered says so of all its domains.
pub proof fn claimed_ports_tell_of_their_domains(
    port: ManagedNeutronPortModel,
    generation: u64,
    desired_hash: Option<Seq<char>>,
    result: ReconcileResultModel,
    i: int,
)
    ensures
        ({
            let waits = rebuild_status(port, generation, desired_hash).domains;
            let told = claim_status(port, generation, desired_hash, result).domains;
            &&& waits.len() == normal_domains(port.managed_domains).len()
            &&& 0 <= i < waits.len() ==> {
                &&& waits[i].domain == normal_domains(port.managed_domains)[i]
                &&& waits[i].reason == Some("runtime_rebuild_required"@)
                &&& waits[i].domain == "acl"@ ==> waits[i].status == "degraded"@
                    && waits[i].effective_action == Some("bypass"@)
                &&& waits[i].domain != "acl"@ ==> waits[i].status == "blocked"@
                    && waits[i].effective_action is None
            }
            &&& 0 <= i < told.len() ==> {
                &&& told[i].reason == result.reason
                &&& result.status == "ready"@ ==> told[i].status == "ready"@
                &&& result.status != "ready"@ ==> told[i].status == "blocked"@
            }
        }),
{
}

/// While a snapshot is pending a restart leaves the state of the agent alone, unless a claim was
/// blocked: only the log is told to be reconciled, where it does not say that the intent was
/// recovered.
pub proof fn restarts_leave_pending_snapshots_alone(
    previous: NeutronRuntimeStateModel,
    ports: Seq<ManagedNeutronPortModel>,
    generation: u64,
    desired_hash: Option<Seq<char>>,
    results: Seq<ReconcileResultModel>,
    missing: bool,
)
    requires
        previous.pending_generation is Some,
    ensures
        ({
            let next = reconciled_runtime(
                previous,
                ports,
                generation,
                desired_hash,
                results,
                missing,
            );
            let blocked = exists|i: int|
                0 <= i < results.len() && (#[trigger] results[i]).status == "blocked"@;
            &&& blocked ==> next.authority_state == "runtime_degraded"@ && next.wal_status
                == "runtime_reconcile_degraded"@
            &&& !blocked ==> next.authority_state == previous.authority_state
            &&& !blocked && previous.wal_status == "intent_recovered"@ ==> next.wal_status
                == "intent_recovered"@
            &&& !blocked && previous.wal_status != "intent_recovered"@ ==> next.wal_status
                == "runtime_reconciled"@
        }),
{
    let n = ports.len() as int;
    lemma_claims_state(previous, ports, generation, desired_hash, results, n);
    let claims = claim_ports(previous, ports, generation, desired_hash, results, n);
    let ready = ports.filter(|port: ManagedNeutronPortModel| claimed(port, results));
    lemma_restarts_state(claims, ready, ready.len() as int);
}

} // verus!
