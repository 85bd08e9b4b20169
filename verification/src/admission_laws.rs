//! What holds of every snapshot that is asked for.

use crate::admission::{
    accepted_runtime, barrier_refusal, decision, disposition, first_answer, observation_step,
    retry_step, revalidation_step, AdmissionDecisionModel, AdmissionStepModel,
};
use crate::apply_laws::lemma_with_ports;
use crate::domains::{
    affected_domains, domain_name, domain_set, lemma_domain_set_finite, managed_port, port_domains,
};
use crate::inventory::LocalInterfaceInventoryModel;
use crate::model::{
    ManagedNeutronPortModel, NeutronPortSnapshotModel, NeutronRuntimeStateModel,
    NeutronSnapshotRequestModel, NeutronWalReplayModel,
};
use crate::ordered::{in_order, lemma_in_order, values_in_order};
use crate::plan::{snapshot_plan, SnapshotPlanModel};
use crate::plan_laws::{keyed_by_id, planned_snapshots_make_transactions};
use crate::port_laws::{asks_for_rules, lemma_normal_domains, lemma_rules_after_naming};
use crate::report_laws::told_pending;
use crate::scope::{preflight_refusal, scope_fault, ReplyStatus, ScopeModel};
use crate::transaction::{
    acl_interfaces, managed_ports, plan_changes, plan_ports, plan_transaction, with_ports,
};
use vstd::prelude::*;

verus! {

/// A request is looked into exactly where its schema is known, its generation is not zero, and its
/// body is of its scope: a request for a single port holds that port and no other. Any other is a
/// bad request.
pub proof fn only_sound_requests_are_looked_into(
    scope: ScopeModel,
    snapshot: NeutronSnapshotRequestModel,
)
    ensures
        preflight_refusal(scope, snapshot) is None <==> {
            &&& snapshot.schema_version is None || snapshot.schema_version == Some(1u32)
            &&& snapshot.generation != 0
            &&& scope matches ScopeModel::SinglePort(target) ==> snapshot.ports.len() == 1
                && snapshot.ports[0].port_id == target
        },
        preflight_refusal(scope, snapshot) matches Some(error) ==> {
            let known = snapshot.schema_version is None || snapshot.schema_version == Some(1u32);
            &&& error.status == ReplyStatus::BadRequest
            &&& !known ==> error.code == "UDS_SCHEMA_MISMATCH"@
            &&& known && snapshot.generation == 0 ==> error.code == "INVALID_SNAPSHOT_GENERATION"@
            &&& known && snapshot.generation != 0 ==> error.code == "PORT_SCOPE_MISMATCH"@
        },
{
}

/// Before anything is looked at, a request is refused where it is not sound or the runtime is not
/// restored yet, and answered where the same snapshot is already being applied.
pub proof fn requests_wait_for_the_restore(
    restore_ready: bool,
    scope: ScopeModel,
    snapshot: NeutronSnapshotRequestModel,
    runtime: NeutronRuntimeStateModel,
)
    ensures
        ({
            let answer = first_answer(restore_ready, scope, snapshot, runtime);
            &&& preflight_refusal(scope, snapshot) matches Some(error) ==> answer is Err
                && answer->Err_0 == error
            &&& preflight_refusal(scope, snapshot) is None && !restore_ready ==> answer is Err
                && answer->Err_0.status == ReplyStatus::ServiceUnavailable
            &&& preflight_refusal(scope, snapshot) is None && restore_ready
                && runtime.pending_generation is None ==> answer is Ok && answer->Ok_0 is None
            &&& answer is Ok && answer->Ok_0 is Some ==> {
                &&& runtime.pending_generation == Some(snapshot.generation)
                &&& runtime.desired_hash == snapshot.desired_hash
                &&& runtime.authority_state == "applying"@ || runtime.authority_state
                    == "accepted"@
                &&& answer->Ok_0->0.status == "pending"@
                &&& answer->Ok_0->0.generation == snapshot.generation
                &&& answer->Ok_0->0.applied_generation == runtime.applied_generation
                &&& answer->Ok_0->0.accepted_generation == runtime.accepted_generation
                &&& answer->Ok_0->0.results.len() == 0
            }
        }),
{
}

/// A snapshot that is pending shuts out every other; the same snapshot is answered as pending while
/// it is being applied, is tried again where it was applied in part, and is refused in any other
/// state.
pub proof fn a_pending_snapshot_shuts_out_others(
    runtime: NeutronRuntimeStateModel,
    snapshot: NeutronSnapshotRequestModel,
    requested_hash: Option<Seq<char>>,
)
    ensures
        ({
            let came = disposition(runtime, snapshot, requested_hash);
            let same = runtime.pending_generation == Some(snapshot.generation) && requested_hash
                == runtime.desired_hash;
            let state = runtime.authority_state;
            &&& runtime.pending_generation is None ==> came is Ok && came->Ok_0 is Fresh
            &&& came is Ok && came->Ok_0 is Fresh ==> runtime.pending_generation is None
            &&& runtime.pending_generation is Some && !same ==> came is Err && came->Err_0.status
                == ReplyStatus::Conflict && came->Err_0.code == "snapshot_apply_in_progress"@
            &&& same && state == "partial"@ ==> came is Ok && came->Ok_0 is RetryablePartial
            &&& same && (state == "applying"@ || state == "accepted"@) && state != "partial"@
                ==> came is Ok && came->Ok_0 is Deduplicated
            &&& same && state != "partial"@ && state != "applying"@ && state != "accepted"@
                ==> came is Err && came->Err_0.status == ReplyStatus::Conflict && came->Err_0.code
                == "snapshot_retry_not_safe"@
        }),
{
}

/// A snapshot that was applied in part is tried again only where the log is whole and says exactly
/// what the runtime says, with nothing left open.
pub proof fn retries_need_a_clean_log(
    runtime: NeutronRuntimeStateModel,
    replay: Option<NeutronWalReplayModel>,
)
    ensures
        retry_step(runtime, replay) is Proceed ==> {
            &&& runtime.authority_state == "partial"@
            &&& runtime.recovery_cause is None
            &&& runtime.wal_replay_failures == 0
            &&& runtime.pending_generation == Some(runtime.accepted_generation)
            &&& runtime.accepted_generation > 0
            &&& runtime.accepted_generation >= runtime.applied_generation
            &&& replay is Some
            &&& replay->0.failures == 0
            &&& replay->0.pending_intent is None
            &&& replay->0.state.ports == runtime.ports
            &&& replay->0.state.port_statuses == runtime.port_statuses
            &&& replay->0.state.accepted_generation == runtime.accepted_generation
            &&& replay->0.state.applied_generation == runtime.applied_generation
            &&& replay->0.state.pending_generation == runtime.pending_generation
            &&& replay->0.state.desired_hash == runtime.desired_hash
            &&& replay->0.state.applied_desired_hash == runtime.applied_desired_hash
            &&& replay->0.state.authority_state == runtime.authority_state
            &&& replay->0.state.recovery_cause == runtime.recovery_cause
        },
        retry_step(runtime, replay) is ReadLog ==> replay is None,
        retry_step(runtime, replay) is Refuse || retry_step(runtime, replay) is Proceed
            || retry_step(runtime, replay) is ReadLog,
        retry_step(runtime, replay) matches AdmissionStepModel::Refuse(error) ==> error.status
            == ReplyStatus::Conflict && error.code == "snapshot_retry_not_safe"@,
        runtime.authority_state != "partial"@ || runtime.recovery_cause is Some
            || runtime.wal_replay_failures > 0 || runtime.pending_generation != Some(
            runtime.accepted_generation,
        ) ==> retry_step(runtime, replay) is Refuse,
{
}

/// A decision is made on what was observed: where the runtime changed while the switch was read it
/// is looked at again, and after three looks the snapshot is refused.
pub proof fn decisions_are_made_on_what_was_observed(
    attempt: u64,
    observed: NeutronRuntimeStateModel,
    current: NeutronRuntimeStateModel,
    snapshot: NeutronSnapshotRequestModel,
    replay: Option<NeutronWalReplayModel>,
)
    ensures
        ({
            let step = revalidation_step(attempt, observed, current, snapshot, replay);
            &&& step is Proceed ==> current == observed
            &&& step is Retry <==> current != observed && attempt < 3
            &&& current != observed && attempt >= 3 ==> step is Refuse && step->Refuse_0.status
                == ReplyStatus::Conflict && step->Refuse_0.code == "snapshot_admission_changed"@
            &&& current == observed && current.pending_generation is None ==> step is Proceed
            &&& !(step is Answer)
        }),
{
    crate::admission::identity_tells_every_change(current, observed);
}

/// True when what is recorded of a port is what a planned port asks for.
pub open spec fn undrifted(
    current: Map<Seq<char>, ManagedNeutronPortModel>,
    port: NeutronPortSnapshotModel,
) -> bool {
    let recorded = current[port.port_id];
    &&& current.dom().contains(port.port_id)
    &&& recorded.ifname == port.ifname
    &&& recorded.ifindex == port.ifindex
    &&& forall|d: Seq<char>|
        d.len() > 0 ==> ((exists|i: int|
            0 <= i < recorded.managed_domains.len() && domain_name(
                #[trigger] recorded.managed_domains[i],
            ) == d) <==> #[trigger] crate::domains::normal_domains(port.managed_domains).contains(
            d,
        ))
    &&& recorded.domain_desired_hashes == managed_port(port).domain_desired_hashes
}

proof fn lemma_undrifted(
    current: Map<Seq<char>, ManagedNeutronPortModel>,
    port: NeutronPortSnapshotModel,
)
    requires
        !crate::transaction::port_drifted(current, port),
    ensures
        undrifted(current, port),
{
    lemma_normal_domains(port.managed_domains);
    lemma_normal_domains(current[port.port_id].managed_domains);
    let recorded = current[port.port_id];
    assert(crate::domains::normal_domains(recorded.managed_domains)
        == crate::domains::normal_domains(port.managed_domains));
}

/// A snapshot is answered without being applied only where that is right: as stale where a later one
/// is applied; as nothing to do where the very same is applied in full, nothing on the host has
/// drifted from it, and the rules of its ports are found in force.
pub proof fn answers_without_applying_are_right(
    scope: ScopeModel,
    runtime: NeutronRuntimeStateModel,
    snapshot: NeutronSnapshotRequestModel,
    inventory: LocalInterfaceInventoryModel,
    verified: Option<bool>,
)
    requires
        decision(scope, runtime, snapshot, inventory, verified) is Answer,
    ensures
        ({
            let response = decision(scope, runtime, snapshot, inventory, verified)->Answer_0;
            let plan = snapshot_plan(runtime.ports, snapshot, inventory, scope);
            &&& response.generation == snapshot.generation
            &&& response.desired_hash == snapshot.desired_hash
            &&& response.accepted_generation == runtime.accepted_generation
            &&& response.applied_generation == runtime.applied_generation
            &&& response.status == "stale"@ || response.status == "noop"@
            &&& response.status == "stale"@ ==> 0 < snapshot.generation
                < runtime.applied_generation
            &&& response.status == "noop"@ ==> {
                &&& snapshot.generation > 0
                &&& snapshot.generation == runtime.applied_generation
                &&& snapshot.desired_hash == runtime.applied_desired_hash
                &&& runtime.pending_generation is None
                &&& runtime.authority_state == "ready"@
                &&& verified == Some(true)
                &&& response.results.len() == 0
                &&& plan.inventory_error is None
                &&& plan.attach.len() == 0
                &&& plan.detach.len() == 0
                &&& forall|i: int|
                    0 <= i < plan.update.len() ==> undrifted(
                        runtime.ports,
                        #[trigger] plan.update[i],
                    )
            }
        }),
{
    reveal_strlit("stale");
    reveal_strlit("noop");
    assert("stale"@.len() != "noop"@.len());
    let plan = snapshot_plan(runtime.ports, snapshot, inventory, scope);
    if !plan_changes(runtime.ports, plan) {
        assert forall|i: int| 0 <= i < plan.update.len() implies undrifted(
            runtime.ports,
            #[trigger] plan.update[i],
        ) by {
            lemma_undrifted(runtime.ports, plan.update[i]);
        }
    }
}

/// A newer snapshot is always prepared, as is one whose rules are not found in force; a second
/// desired state for an applied generation is a conflict.
pub proof fn newer_snapshots_are_prepared(
    scope: ScopeModel,
    runtime: NeutronRuntimeStateModel,
    snapshot: NeutronSnapshotRequestModel,
    inventory: LocalInterfaceInventoryModel,
    verified: Option<bool>,
)
    requires
        runtime.ports.dom().finite(),
        keyed_by_id(runtime.ports),
        scope_fault(scope, snapshot) is None,
    ensures
        ({
            let made = decision(scope, runtime, snapshot, inventory, verified);
            &&& snapshot.generation > runtime.applied_generation ==> made is Prepare
            &&& runtime.pending_generation is Some && snapshot.generation
                >= runtime.applied_generation ==> made is Prepare
            &&& runtime.authority_state != "ready"@ && snapshot.generation
                >= runtime.applied_generation ==> made is Prepare
            &&& verified == Some(false) && made is Answer ==> made->Answer_0.status == "stale"@
            &&& made matches AdmissionDecisionModel::Refuse(error) ==> {
                &&& error.status == ReplyStatus::Conflict
                &&& error.code == "generation_hash_conflict"@
                &&& snapshot.generation == runtime.applied_generation
                &&& snapshot.desired_hash != runtime.applied_desired_hash
                &&& snapshot.desired_hash is Some && runtime.applied_desired_hash is Some
            }
            &&& made matches AdmissionDecisionModel::Prepare(prepared) ==> {
                &&& prepared.transaction.scope == scope
                &&& prepared.transaction.plan == snapshot_plan(
                    runtime.ports,
                    snapshot,
                    inventory,
                    scope,
                )
                &&& prepared.same_generation_retry <==> runtime.authority_state == "partial"@
                    && runtime.pending_generation == Some(snapshot.generation)
                    && runtime.desired_hash == snapshot.desired_hash
                &&& prepared.intent.kind == "snapshot"@
                &&& prepared.intent.affected_domains == prepared.transaction.affected_domains
                &&& prepared.transaction.plan.inventory_error is None ==> prepared.intent.port_ids
                    == prepared.transaction.requested_port_ids
            }
        }),
{
    planned_snapshots_make_transactions(runtime.ports, snapshot, inventory, scope);
    reveal_strlit("stale");
    reveal_strlit("noop");
    assert("stale"@.len() != "noop"@.len());
}

proof fn lemma_acl_interfaces(
    scope: ScopeModel,
    managed: Map<Seq<char>, ManagedNeutronPortModel>,
    ports: Seq<NeutronPortSnapshotModel>,
    n: int,
)
    requires
        0 <= n <= ports.len(),
    ensures
        acl_interfaces(scope, managed, ports, n).finite(),
        forall|x: Seq<char>| #[trigger]
            acl_interfaces(scope, managed, ports, n).contains(x) <==> exists|j: int|
                0 <= j < n && scope.holds((#[trigger] ports[j]).port_id) && asks_for_rules(ports[j])
                    && managed.dom().contains(ports[j].port_id) && managed[ports[j].port_id].ifname
                    == x,
    decreases n,
{
    if n > 0 {
        lemma_acl_interfaces(scope, managed, ports, n - 1);
        lemma_rules_after_naming(ports[n - 1]);
        let before = acl_interfaces(scope, managed, ports, n - 1);
        let after = acl_interfaces(scope, managed, ports, n);
        assert forall|x: Seq<char>| #[trigger] after.contains(x) <==> exists|j: int|
            0 <= j < n && scope.holds((#[trigger] ports[j]).port_id) && asks_for_rules(ports[j])
                && managed.dom().contains(ports[j].port_id) && managed[ports[j].port_id].ifname
                == x by {
            if after.contains(x) && !before.contains(x) {
                assert(scope.holds(ports[n - 1].port_id));
            }
        }
    }
}

/// Where a snapshot seems to be applied, the rules are looked at on exactly the interfaces of the
/// managed ports of the scope that ask for rules.
pub proof fn rules_are_looked_at_where_they_are_asked_for(
    scope: ScopeModel,
    runtime: NeutronRuntimeStateModel,
    snapshot: NeutronSnapshotRequestModel,
    inventory: LocalInterfaceInventoryModel,
    verified: Option<bool>,
    x: Seq<char>,
)
    requires
        decision(scope, runtime, snapshot, inventory, verified) is VerifyProjection,
    ensures
        verified is None,
        decision(scope, runtime, snapshot, inventory, verified)->VerifyProjection_0.contains(x)
            <==> exists|j: int|
            0 <= j < snapshot.ports.len() && scope.holds((#[trigger] snapshot.ports[j]).port_id)
                && asks_for_rules(snapshot.ports[j]) && runtime.ports.dom().contains(
                snapshot.ports[j].port_id,
            ) && runtime.ports[snapshot.ports[j].port_id].ifname == x,
{
    let n = snapshot.ports.len() as int;
    lemma_acl_interfaces(scope, runtime.ports, snapshot.ports, n);
    lemma_in_order::<String>(acl_interfaces(scope, runtime.ports, snapshot.ports, n));
}

/// Accepting a snapshot changes nothing that is applied: it only marks the snapshot as pending.
pub proof fn accepting_only_marks_the_snapshot(
    runtime: NeutronRuntimeStateModel,
    snapshot: NeutronSnapshotRequestModel,
)
    ensures
        ({
            let next = accepted_runtime(runtime, snapshot);
            &&& next.pending_generation == Some(snapshot.generation)
            &&& next.desired_hash == snapshot.desired_hash
            &&& next.authority_state == "applying"@
            &&& next.accepted_generation == runtime.accepted_generation
            &&& next.applied_generation == runtime.applied_generation
            &&& next.applied_desired_hash == runtime.applied_desired_hash
            &&& next.ports == runtime.ports
            &&& next.port_statuses == runtime.port_statuses
            &&& next.recovery_cause == runtime.recovery_cause
        }),
{
}

/// Where a port of a map comes from that ports were put into.
pub(crate) proof fn lemma_with_ports_from(
    base: Map<Seq<char>, ManagedNeutronPortModel>,
    ports: Seq<ManagedNeutronPortModel>,
    n: int,
    k: Seq<char>,
)
    requires
        0 <= n <= ports.len(),
        with_ports(base, ports, n).dom().contains(k),
    ensures
        (base.dom().contains(k) && with_ports(base, ports, n)[k] == base[k]) || exists|i: int|
            0 <= i < n && (#[trigger] ports[i]).port_id == k && with_ports(base, ports, n)[k]
                == ports[i],
    decreases n,
{
    if n > 0 {
        if ports[n - 1].port_id != k {
            lemma_with_ports_from(base, ports, n - 1, k);
        }
    }
}

proof fn lemma_port_domains(ports: Seq<ManagedNeutronPortModel>, n: int)
    requires
        0 <= n <= ports.len(),
    ensures
        port_domains(ports, n).finite(),
        forall|d: Seq<char>| #[trigger]
            port_domains(ports, n).contains(d) <==> exists|i: int|
                0 <= i < n && domain_set((#[trigger] ports[i]).managed_domains).contains(d),
    decreases n,
{
    if n > 0 {
        lemma_port_domains(ports, n - 1);
        lemma_domain_set_finite(ports[n - 1].managed_domains);
        let before = port_domains(ports, n - 1);
        let after = port_domains(ports, n);
        assert forall|d: Seq<char>| #[trigger] after.contains(d) <==> exists|i: int|
            0 <= i < n && domain_set((#[trigger] ports[i]).managed_domains).contains(d) by {
            if after.contains(d) && !before.contains(d) {
                assert(domain_set(ports[n - 1].managed_domains).contains(d));
            }
        }
    }
}

/// A transaction names everything that its plan touches, and nothing else: a port is affected
/// exactly where it is to be detached, updated or attached, and a domain where it is managed on an
/// affected port; attachment is affected wherever any port is.
pub proof fn transactions_name_what_they_touch(
    scope: ScopeModel,
    snapshot: NeutronSnapshotRequestModel,
    plan: SnapshotPlanModel,
    k: Seq<char>,
    d: Seq<char>,
)
    requires
        plan_transaction(scope, snapshot, plan) is Ok,
    ensures
        ({
            let made = plan_transaction(scope, snapshot, plan)->Ok_0;
            let touched = (exists|i: int|
                0 <= i < plan.detach.len() && (#[trigger] plan.detach[i]).port_id == k) || (exists|
                i: int,
            |
                0 <= i < plan.update.len() && (#[trigger] plan.update[i]).port_id == k) || (exists|
                i: int,
            |
                0 <= i < plan.attach.len() && (#[trigger] plan.attach[i]).port_id == k);
            &&& made.scope == scope
            &&& made.plan == plan
            &&& scope matches ScopeModel::SinglePort(target) ==> made.requested_port_ids == seq![
                target,
            ]
            &&& scope is FullHost ==> made.requested_port_ids.len() == snapshot.ports.len()
                && forall|j: int|
                0 <= j < snapshot.ports.len() ==> #[trigger] made.requested_port_ids[j]
                    == snapshot.ports[j].port_id
            &&& (exists|i: int|
                0 <= i < made.affected_ports.len() && (#[trigger] made.affected_ports[i]).port_id
                    == k) <==> touched
            &&& made.affected_domains.contains(d) <==> made.affected_ports.len() > 0 && (d
                == "attach"@ || (d.len() > 0 && exists|i: int, j: int|
                0 <= i < made.affected_ports.len() && 0 <= j
                    < made.affected_ports[i].managed_domains.len() && domain_name(
                    #[trigger] made.affected_ports[i].managed_domains[j],
                ) == d))
        }),
{
    let made = plan_transaction(scope, snapshot, plan)->Ok_0;
    let update = managed_ports(plan.update);
    let attach = managed_ports(plan.attach);
    let first = with_ports(Map::empty(), plan.detach, plan.detach.len() as int);
    let second = with_ports(first, update, update.len() as int);
    let all = plan_ports(plan);
    lemma_with_ports(Map::empty(), plan.detach, plan.detach.len() as int);
    lemma_with_ports(first, update, update.len() as int);
    lemma_with_ports(second, attach, attach.len() as int);
    let keys = in_order::<String>(all.dom());
    lemma_in_order::<String>(all.dom());
    let ports = made.affected_ports;
    assert(ports == values_in_order::<String, ManagedNeutronPortModel>(all));
    assert forall|i: int| 0 <= i < ports.len() implies all.dom().contains(
        (#[trigger] ports[i]).port_id,
    ) by {
        assert(keys.contains(keys[i]));
        assert(ports[i] == all[keys[i]]);
    }
    if all.dom().contains(k) {
        assert(keys.contains(k));
        let i = keys.index_of(k);
        assert(ports[i] == all[k]);
        assert(ports[i].port_id == k);
        lemma_with_ports_from(second, attach, attach.len() as int, k);
        if second.dom().contains(k) {
            lemma_with_ports_from(first, update, update.len() as int, k);
            if first.dom().contains(k) {
                lemma_with_ports_from(Map::empty(), plan.detach, plan.detach.len() as int, k);
            }
        }
        if exists|i: int| 0 <= i < attach.len() && (#[trigger] attach[i]).port_id == k {
            let i = choose|i: int| 0 <= i < attach.len() && (#[trigger] attach[i]).port_id == k;
            assert(plan.attach[i].port_id == k);
        } else if exists|i: int| 0 <= i < update.len() && (#[trigger] update[i]).port_id == k {
            let i = choose|i: int| 0 <= i < update.len() && (#[trigger] update[i]).port_id == k;
            assert(plan.update[i].port_id == k);
        }
    }
    if exists|i: int| 0 <= i < plan.detach.len() && (#[trigger] plan.detach[i]).port_id == k {
        assert(first.dom().contains(k));
        assert(second.dom().contains(k));
        assert(all.dom().contains(k));
    }
    if exists|i: int| 0 <= i < plan.update.len() && (#[trigger] plan.update[i]).port_id == k {
        let i = choose|i: int|
            0 <= i < plan.update.len() && (#[trigger] plan.update[i]).port_id == k;
        assert(update[i].port_id == k);
        assert(second.dom().contains(k));
        assert(all.dom().contains(k));
    }
    if exists|i: int| 0 <= i < plan.attach.len() && (#[trigger] plan.attach[i]).port_id == k {
        let i = choose|i: int|
            0 <= i < plan.attach.len() && (#[trigger] plan.attach[i]).port_id == k;
        assert(attach[i].port_id == k);
        assert(all.dom().contains(k));
    }
    lemma_affected_domains(ports, d);
}

/// The domains that ports touch.
pub(crate) proof fn lemma_affected_domains(ports: Seq<ManagedNeutronPortModel>, d: Seq<char>)
    ensures
        affected_domains(ports).contains(d) <==> ports.len() > 0 && (d == "attach"@ || (d.len() > 0
            && exists|i: int, j: int|
            0 <= i < ports.len() && 0 <= j < ports[i].managed_domains.len() && domain_name(
                #[trigger] ports[i].managed_domains[j],
            ) == d)),
{
    let n = ports.len() as int;
    lemma_port_domains(ports, n);
    let all = if n == 0 {
        Set::<Seq<char>>::empty()
    } else {
        port_domains(ports, n).insert("attach"@)
    };
    lemma_in_order::<String>(all);
    if port_domains(ports, n).contains(d) {
        let i = choose|i: int|
            0 <= i < n && domain_set((#[trigger] ports[i]).managed_domains).contains(d);
        let names = ports[i].managed_domains;
        let j = choose|j: int| 0 <= j < names.len() && domain_name(#[trigger] names[j]) == d;
        assert(domain_name(ports[i].managed_domains[j]) == d);
    }
    if d.len() > 0 && exists|i: int, j: int|
        0 <= i < ports.len() && 0 <= j < ports[i].managed_domains.len() && domain_name(
            #[trigger] ports[i].managed_domains[j],
        ) == d {
        let (i, j) = choose|i: int, j: int|
            0 <= i < ports.len() && 0 <= j < ports[i].managed_domains.len() && domain_name(
                #[trigger] ports[i].managed_domains[j],
            ) == d;
        let names = ports[i].managed_domains;
        assert(domain_name(names[j]) == d);
        assert(domain_set(ports[i].managed_domains).contains(d));
    }
}

/// What is seen of the runtime decides what becomes of a request: without a pending snapshot it goes
/// on, while the same snapshot is being applied it is answered as pending, and after a part of it was
/// applied it goes on only behind a clean log.
pub proof fn observations_decide_on_the_pending_snapshot(
    runtime: NeutronRuntimeStateModel,
    snapshot: NeutronSnapshotRequestModel,
    replay: Option<NeutronWalReplayModel>,
)
    ensures
        ({
            let step = observation_step(runtime, snapshot, replay);
            let same = runtime.pending_generation == Some(snapshot.generation)
                && snapshot.desired_hash == runtime.desired_hash;
            &&& runtime.pending_generation is None ==> step is Proceed
            &&& runtime.pending_generation is Some && !same ==> step is Refuse
            &&& same && runtime.authority_state == "partial"@ ==> step == retry_step(
                runtime,
                replay,
            )
            &&& step is Answer ==> same && (runtime.authority_state == "applying"@
                || runtime.authority_state == "accepted"@) && step->Answer_0.status == "pending"@
            &&& same && runtime.authority_state != "partial"@ && (runtime.authority_state
                == "applying"@ || runtime.authority_state == "accepted"@) ==> step is Answer
            &&& !(step is Retry)
        }),
{
}

/// A snapshot that is applied in full, with nothing on the host that differs from it, is not applied
/// again: at most its rules are looked at.
pub proof fn unchanged_snapshots_are_not_applied_again(
    scope: ScopeModel,
    runtime: NeutronRuntimeStateModel,
    snapshot: NeutronSnapshotRequestModel,
    inventory: LocalInterfaceInventoryModel,
    verified: Option<bool>,
)
    requires
        snapshot.generation > 0,
        snapshot.generation == runtime.applied_generation,
        snapshot.desired_hash == runtime.applied_desired_hash,
        runtime.pending_generation is None,
        runtime.authority_state == "ready"@,
        ({
            let plan = snapshot_plan(runtime.ports, snapshot, inventory, scope);
            &&& plan.inventory_error is None
            &&& plan.attach.len() == 0
            &&& plan.detach.len() == 0
            &&& forall|i: int|
                0 <= i < plan.update.len() ==> undrifted(runtime.ports, #[trigger] plan.update[i])
        }),
    ensures
        ({
            let made = decision(scope, runtime, snapshot, inventory, verified);
            &&& verified is None ==> made is VerifyProjection
            &&& verified == Some(true) ==> made is Answer && made->Answer_0.status == "noop"@
            &&& verified == Some(false) ==> !(made is Answer)
        }),
{
    let plan = snapshot_plan(runtime.ports, snapshot, inventory, scope);
    assert forall|i: int| 0 <= i < plan.update.len() implies !crate::transaction::port_drifted(
        runtime.ports,
        #[trigger] plan.update[i],
    ) by {
        assert(undrifted(runtime.ports, plan.update[i]));
        lemma_not_drifted(runtime.ports, plan.update[i]);
    }
    reveal_strlit("stale");
    reveal_strlit("noop");
    assert("stale"@.len() != "noop"@.len());
}

proof fn lemma_not_drifted(
    current: Map<Seq<char>, ManagedNeutronPortModel>,
    port: NeutronPortSnapshotModel,
)
    requires
        undrifted(current, port),
    ensures
        !crate::transaction::port_drifted(current, port),
{
    let a = current[port.port_id].managed_domains;
    let b = port.managed_domains;
    lemma_normal_domains(a);
    lemma_normal_domains(b);
    assert(domain_set(a) =~= domain_set(b)) by {
        assert forall|d: Seq<char>| domain_set(a).contains(d) <==> domain_set(b).contains(d) by {
            if d.len() > 0 {
                assert(crate::domains::normal_domains(b).contains(d) <==> domain_set(b).contains(
                    d,
                ));
            }
        }
    }
}

/// A snapshot that was applied in part, behind a log that is whole and says what the runtime says, is
/// tried again.
pub proof fn clean_partial_snapshots_are_retried(
    runtime: NeutronRuntimeStateModel,
    replay: NeutronWalReplayModel,
)
    requires
        runtime.authority_state == "partial"@,
        runtime.recovery_cause is None,
        runtime.wal_replay_failures == 0,
        runtime.pending_generation == Some(runtime.accepted_generation),
        told_pending(runtime),
    ensures
        retry_step(runtime, None) is ReadLog,
        retry_step(runtime, Some(replay)) is Proceed <==> {
            &&& replay.failures == 0
            &&& replay.pending_intent is None
            &&& replay.state.ports == runtime.ports
            &&& replay.state.port_statuses == runtime.port_statuses
            &&& replay.state.accepted_generation == runtime.accepted_generation
            &&& replay.state.applied_generation == runtime.applied_generation
            &&& replay.state.pending_generation == runtime.pending_generation
            &&& replay.state.desired_hash == runtime.desired_hash
            &&& replay.state.applied_desired_hash == runtime.applied_desired_hash
            &&& replay.state.authority_state == runtime.authority_state
            &&& replay.state.recovery_cause == runtime.recovery_cause
        },
        barrier_refusal(runtime, replay) is None <==> retry_step(runtime, Some(replay)) is Proceed,
{
}

/// A stale snapshot is answered with one result, which says that the snapshot was ignored and why.
pub proof fn stale_snapshots_are_told_so(
    scope: ScopeModel,
    runtime: NeutronRuntimeStateModel,
    snapshot: NeutronSnapshotRequestModel,
    inventory: LocalInterfaceInventoryModel,
    verified: Option<bool>,
)
    requires
        0 < snapshot.generation < runtime.applied_generation,
    ensures
        ({
            let made = decision(scope, runtime, snapshot, inventory, verified);
            let told = made->Answer_0;
            &&& made is Answer
            &&& told.status == "stale"@
            &&& told.results.len() == 1
            &&& told.results[0].action == "ignore"@
            &&& told.results[0].status == "ignored"@
            &&& told.results[0].reason == Some("stale_generation"@)
        }),
{
    reveal_strlit("stale");
    reveal_strlit("noop");
    assert("stale"@.len() != "noop"@.len());
}

} // verus!
