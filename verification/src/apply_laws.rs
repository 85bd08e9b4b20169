//! What holds of every snapshot that is applied.

use crate::apply::{
    any_error, apply_outcome, apply_settled, apply_start, apply_step, plan_work, ApplyModel,
    WorkModel,
};
use crate::domains::managed_port;
use crate::host::OutcomeModel;
use crate::model::{ManagedNeutronPortModel, NeutronRuntimeStateModel, NeutronSnapshotRequestModel};
use crate::ordered::{in_order, lemma_in_order, values_in_order};
use crate::plan::{SnapshotApplyTransactionModel, SnapshotPlanModel};
use crate::scope::ScopeModel;
use crate::transaction::{first_outside, managed_ports, plan_ports, plan_transaction, with_ports};
use vstd::prelude::*;

verus! {

/// Settling a port changes the record and the status of that port alone.
pub proof fn settling_touches_one_port(ctx: ApplyModel)
    requires
        apply_step(ctx) is Settle,
    ensures
        ({
            let outcome = apply_step(ctx)->Settle_0;
            let next = apply_settled(ctx, outcome);
            let port_id = ctx.work[ctx.position as int].port_id();
            &&& outcome.result.port_id == port_id
            &&& forall|k: Seq<char>|
                k != port_id ==> (#[trigger] next.ports.dom().contains(k)
                    == ctx.ports.dom().contains(k) && next.ports[k] == ctx.ports[k])
            &&& forall|k: Seq<char>|
                k != port_id ==> (#[trigger] next.statuses.dom().contains(k)
                    == ctx.statuses.dom().contains(k) && next.statuses[k] == ctx.statuses[k])
        }),
{
}

/// The record of a port goes only once its rules are scrubbed and its interface is detached, and
/// an interface is detached only once its rules are scrubbed, or where bringing it about was
/// stopped before it had any.
pub proof fn detaching_follows_scrubbing(ctx: ApplyModel)
    requires
        ctx.position < ctx.work.len(),
    ensures
        apply_step(ctx) is Settle && apply_step(ctx)->Settle_0.change is Remove ==> {
            &&& ctx.work[ctx.position as int] is Detach
            &&& ctx.history.purged == Some(OutcomeModel::Done)
            &&& ctx.history.detached == Some(OutcomeModel::Done)
        },
        apply_step(ctx) is Detach ==> ctx.history.purged == Some(OutcomeModel::Done) || (
        ctx.work[ctx.position as int] is Attach && ctx.history.fault is Some && ctx.history.fault->0
            is Failed),
{
}

/// A port is recorded as managed only where it was brought about: its interface is attached, and
/// the claim on it held.
pub proof fn recorded_ports_were_claimed(ctx: ApplyModel)
    requires
        apply_step(ctx) is Settle,
        apply_step(ctx)->Settle_0.change is Put,
    ensures
        apply_step(ctx)->Settle_0.result.status == "ok"@,
        ctx.history.attached == Some(OutcomeModel::Done),
        ctx.history.reused == Some(true) || ctx.history.confirmed == Some(true),
        apply_step(ctx)->Settle_0.change->Put_0.port_id
            == ctx.work[ctx.position as int].port_id(),
{
}

/// No step is asked for again once it was answered, so that every port comes to an end.
pub proof fn steps_are_asked_for_once(ctx: ApplyModel)
    ensures
        apply_step(ctx) is Purge ==> ctx.history.purged is None,
        apply_step(ctx) is Detach ==> ctx.history.detached is None,
        apply_step(ctx) is Attach ==> ctx.history.attached is None,
        apply_step(ctx) is CheckFault ==> ctx.history.fault is None,
        apply_step(ctx) is ReadHealth ==> ctx.history.health is None,
        apply_step(ctx) is Reuse ==> ctx.history.reused is None,
        apply_step(ctx) is Reconcile ==> ctx.history.reconciled is None,
        apply_step(ctx) is Confirm ==> ctx.history.confirmed is None,
        apply_step(ctx) is Finish ==> ctx.position >= ctx.work.len(),
{
}

/// The applied generation moves only where nothing failed; a partly applied snapshot stays
/// pending.
pub proof fn applied_generation_moves_only_without_errors(ctx: ApplyModel)
    ensures
        ({
            let outcome = apply_outcome(ctx);
            let next = outcome.next_runtime;
            &&& outcome.previous_applied_generation == ctx.before.applied_generation
            &&& next.accepted_generation == ctx.generation
            &&& next.desired_hash == ctx.requested_hash
            &&& outcome.has_error ==> {
                &&& next.applied_generation == ctx.before.applied_generation
                &&& next.applied_desired_hash == ctx.before.applied_desired_hash
                &&& next.pending_generation == Some(ctx.generation)
            }
            &&& !outcome.has_error ==> {
                &&& next.applied_generation == ctx.generation
                &&& next.applied_desired_hash == ctx.requested_hash
                &&& next.pending_generation is None
                &&& next.authority_state == "ready"@
                &&& !any_error(outcome.results)
            }
        }),
{
}

/// Without an inventory the host is not asked for anything, and all that was committed stays: the
/// ports, their statuses, and what was applied.
pub proof fn nothing_happens_without_inventory(
    generation: u64,
    requested_hash: Option<Seq<char>>,
    current_ports: Map<Seq<char>, ManagedNeutronPortModel>,
    before: NeutronRuntimeStateModel,
    transaction: SnapshotApplyTransactionModel,
)
    requires
        transaction.plan.inventory_error is Some,
    ensures
        ({
            let start = apply_start(
                generation,
                requested_hash,
                current_ports,
                before,
                transaction,
            );
            let outcome = apply_outcome(start);
            &&& apply_step(start) is Finish
            &&& outcome.has_error
            &&& outcome.next_runtime.ports == before.ports
            &&& outcome.next_runtime.port_statuses == before.port_statuses
            &&& outcome.next_runtime.applied_generation == before.applied_generation
            &&& outcome.next_runtime.applied_desired_hash == before.applied_desired_hash
            &&& outcome.next_runtime.pending_generation == Some(generation)
            &&& outcome.next_runtime.recovery_cause == Some("inventory_unavailable"@)
        }),
{
}

/// True when all the work lies in a scope, and everything outside of it is as it was before.
pub open spec fn outside_untouched(ctx: ApplyModel, scope: ScopeModel) -> bool {
    &&& forall|i: int| 0 <= i < ctx.work.len() ==> scope.holds((#[trigger] ctx.work[i]).port_id())
    &&& forall|k: Seq<char>|
        !scope.holds(k) ==> (#[trigger] ctx.ports.dom().contains(k) == ctx.before.ports.dom().contains(
            k,
        ) && ctx.ports[k] == ctx.before.ports[k])
    &&& forall|k: Seq<char>|
        !scope.holds(k) ==> (#[trigger] ctx.statuses.dom().contains(k)
            == ctx.before.port_statuses.dom().contains(k) && ctx.statuses[k]
            == ctx.before.port_statuses[k])
}

/// What putting ports into a map keeps and adds.
pub(crate) proof fn lemma_with_ports(
    base: Map<Seq<char>, ManagedNeutronPortModel>,
    ports: Seq<ManagedNeutronPortModel>,
    n: int,
)
    requires
        0 <= n <= ports.len(),
        base.dom().finite(),
        forall|k: Seq<char>| #[trigger] base.dom().contains(k) ==> base[k].port_id == k,
    ensures
        with_ports(base, ports, n).dom().finite(),
        forall|k: Seq<char>| #[trigger]
            with_ports(base, ports, n).dom().contains(k) ==> with_ports(base, ports, n)[k].port_id
                == k,
        forall|k: Seq<char>| #[trigger]
            base.dom().contains(k) ==> with_ports(base, ports, n).dom().contains(k),
        forall|i: int|
            0 <= i < n ==> with_ports(base, ports, n).dom().contains(
                (#[trigger] ports[i]).port_id,
            ),
    decreases n,
{
    if n > 0 {
        lemma_with_ports(base, ports, n - 1);
    }
}

proof fn lemma_none_outside(ports: Seq<ManagedNeutronPortModel>, scope: ScopeModel, i: int)
    requires
        0 <= i <= ports.len(),
        first_outside(ports, scope, i) is None,
    ensures
        forall|j: int| i <= j < ports.len() ==> scope.holds((#[trigger] ports[j]).port_id),
    decreases ports.len() - i,
{
    if i < ports.len() {
        lemma_none_outside(ports, scope, i + 1);
    }
}

/// A transaction that is let through does not leave its scope: every port that it detaches,
/// updates or attaches lies in it.
pub proof fn transactions_stay_in_scope(
    scope: ScopeModel,
    snapshot: NeutronSnapshotRequestModel,
    plan: SnapshotPlanModel,
)
    requires
        plan_transaction(scope, snapshot, plan) is Ok,
    ensures
        forall|i: int|
            0 <= i < plan_work(plan).len() ==> scope.holds(
                (#[trigger] plan_work(plan)[i]).port_id(),
            ),
{
    let detach = plan.detach;
    let update = managed_ports(plan.update);
    let attach = managed_ports(plan.attach);
    let m1 = with_ports(Map::empty(), detach, detach.len() as int);
    let m2 = with_ports(m1, update, update.len() as int);
    let all = plan_ports(plan);
    lemma_with_ports(Map::empty(), detach, detach.len() as int);
    lemma_with_ports(m1, update, update.len() as int);
    lemma_with_ports(m2, attach, attach.len() as int);
    lemma_in_order::<String>(all.dom());
    let keys = in_order::<String>(all.dom());
    let ports = values_in_order::<String, ManagedNeutronPortModel>(all);
    if scope is SinglePort {
        lemma_none_outside(ports, scope, 0);
        assert forall|k: Seq<char>| #[trigger] all.dom().contains(k) implies scope.holds(k) by {
            assert(keys.contains(k));
            let j = choose|j: int| 0 <= j < keys.len() && keys[j] == k;
            assert(ports[j] == all[k]);
        }
        assert forall|i: int| 0 <= i < plan_work(plan).len() implies scope.holds(
            (#[trigger] plan_work(plan)[i]).port_id(),
        ) by {
            let d = detach.len() as int;
            let u = update.len() as int;
            if i < d {
                assert(plan_work(plan)[i] == WorkModel::Detach(detach[i]));
                assert(m1.dom().contains(detach[i].port_id));
                assert(m2.dom().contains(detach[i].port_id));
                assert(all.dom().contains(detach[i].port_id));
            } else if i < d + u {
                assert(plan_work(plan)[i] == WorkModel::Update(plan.update[i - d]));
                assert(update[i - d] == managed_port(plan.update[i - d]));
                assert(m2.dom().contains(update[i - d].port_id));
                assert(all.dom().contains(update[i - d].port_id));
            } else {
                assert(plan_work(plan)[i] == WorkModel::Attach(plan.attach[i - d - u]));
                assert(attach[i - d - u] == managed_port(plan.attach[i - d - u]));
                assert(all.dom().contains(attach[i - d - u].port_id));
            }
        }
    }
}

/// A snapshot of one port begins with everything else as it is.
pub proof fn scoped_apply_begins_outside_untouched(
    generation: u64,
    requested_hash: Option<Seq<char>>,
    before: NeutronRuntimeStateModel,
    snapshot: NeutronSnapshotRequestModel,
    scope: ScopeModel,
    plan: SnapshotPlanModel,
)
    requires
        plan_transaction(scope, snapshot, plan) is Ok,
    ensures
        outside_untouched(
            apply_start(
                generation,
                requested_hash,
                before.ports,
                before,
                plan_transaction(scope, snapshot, plan)->Ok_0,
            ),
            scope,
        ),
{
    transactions_stay_in_scope(scope, snapshot, plan);
}

/// Whatever a port of the scope comes to, everything outside of the scope stays as it is.
pub proof fn settling_leaves_outside_untouched(ctx: ApplyModel, scope: ScopeModel)
    requires
        outside_untouched(ctx, scope),
        apply_step(ctx) is Settle,
    ensures
        outside_untouched(apply_settled(ctx, apply_step(ctx)->Settle_0), scope),
{
    settling_touches_one_port(ctx);
    let next = apply_settled(ctx, apply_step(ctx)->Settle_0);
    let port_id = ctx.work[ctx.position as int].port_id();
    assert(scope.holds(port_id));
    assert forall|k: Seq<char>| !scope.holds(k) implies (#[trigger] next.ports.dom().contains(k)
        == next.before.ports.dom().contains(k) && next.ports[k] == next.before.ports[k]) by {
        assert(k != port_id);
        assert(ctx.ports.dom().contains(k) == ctx.before.ports.dom().contains(k));
    }
    assert forall|k: Seq<char>| !scope.holds(k) implies (#[trigger] next.statuses.dom().contains(k)
        == next.before.port_statuses.dom().contains(k) && next.statuses[k]
        == next.before.port_statuses[k]) by {
        assert(k != port_id);
        assert(ctx.statuses.dom().contains(k) == ctx.before.port_statuses.dom().contains(k));
    }
}

/// The runtime that comes out of a snapshot of one port has every other port, and its status, as
/// it was before.
pub proof fn scoped_apply_keeps_other_ports(ctx: ApplyModel, scope: ScopeModel, k: Seq<char>)
    requires
        outside_untouched(ctx, scope),
        !scope.holds(k),
    ensures
        ({
            let next = apply_outcome(ctx).next_runtime;
            &&& next.ports.dom().contains(k) == ctx.before.ports.dom().contains(k)
            &&& next.ports[k] == ctx.before.ports[k]
            &&& next.port_statuses.dom().contains(k) == ctx.before.port_statuses.dom().contains(k)
            &&& next.port_statuses[k] == ctx.before.port_statuses[k]
        }),
{
    assert(ctx.ports.dom().contains(k) == ctx.before.ports.dom().contains(k));
    assert(ctx.statuses.dom().contains(k) == ctx.before.port_statuses.dom().contains(k));
}

} // verus!
