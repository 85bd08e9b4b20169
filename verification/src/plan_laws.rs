//! What holds of every plan.

use crate::inventory::{lookup, LocalInterfaceInventoryModel};
use crate::model::{
    ManagedNeutronPortModel, NeutronPortSnapshotModel, NeutronSnapshotRequestModel,
};
use crate::ordered::{in_order, lemma_in_order, values_in_order};
use crate::plan::{must_detach, resolved_port, snapshot_plan, sorted_ports, stays_bound};
use crate::scope::{scope_fault, ScopeModel};
use crate::transaction::{first_outside, managed_ports, plan_ports, plan_transaction, with_ports};
use vstd::prelude::*;

verus! {

/// True when every managed port is kept under its own identity.
pub open spec fn keyed_by_id(current: Map<Seq<char>, ManagedNeutronPortModel>) -> bool {
    forall|k: Seq<char>| #[trigger] current.dom().contains(k) ==> current[k].port_id == k
}

proof fn lemma_sorted_ports(
    ports: Seq<NeutronPortSnapshotModel>,
    current: Map<Seq<char>, ManagedNeutronPortModel>,
    inventory: LocalInterfaceInventoryModel,
    scope: ScopeModel,
    n: int,
)
    requires
        0 <= n <= ports.len(),
    ensures
        ({
            let sorted = sorted_ports(ports, current, inventory, scope, n);
            &&& sorted.desired.dom().finite()
            &&& inventory.ovs_error is Some ==> {
                &&& sorted.desired =~= Map::empty()
                &&& sorted.inventory_error == Some("ovsdb_unavailable:"@ + inventory.ovs_error->0)
            }
            &&& forall|k: Seq<char>| #[trigger]
                sorted.desired.dom().contains(k) ==> {
                    &&& scope.holds(k)
                    &&& sorted.desired[k].port_id == k
                    &&& sorted.desired[k].eligible
                    &&& exists|i: int|
                        0 <= i < n && sorted.desired[k] == resolved_port(
                            #[trigger] ports[i],
                            inventory,
                        )
                }
        }),
    decreases n,
{
    if n > 0 {
        lemma_sorted_ports(ports, current, inventory, scope, n - 1);
        let before = sorted_ports(ports, current, inventory, scope, n - 1);
        let sorted = sorted_ports(ports, current, inventory, scope, n);
        let resolved = resolved_port(ports[n - 1], inventory);
        assert(resolved.port_id == ports[n - 1].port_id);
        assert forall|k: Seq<char>| #[trigger] sorted.desired.dom().contains(k) implies {
            &&& scope.holds(k)
            &&& sorted.desired[k].port_id == k
            &&& sorted.desired[k].eligible
            &&& exists|i: int|
                0 <= i < n && sorted.desired[k] == resolved_port(#[trigger] ports[i], inventory)
        } by {
            if sorted.desired[k] == resolved && k == resolved.port_id {
                if before.desired.dom().contains(k) && sorted.desired == before.desired {
                } else {
                    assert(sorted.desired[k] == resolved_port(ports[n - 1], inventory));
                }
            } else {
                assert(before.desired.dom().contains(k));
                assert(sorted.desired[k] == before.desired[k]);
            }
        }
    }
}

/// What stands at a place of a filtered list comes from a key that the filter lets through.
pub(crate) proof fn lemma_chosen<A>(
    keys: Seq<Seq<char>>,
    p: spec_fn(Seq<char>) -> bool,
    f: spec_fn(Seq<char>) -> A,
    i: int,
) -> (k: Seq<char>)
    requires
        0 <= i < keys.filter(p).map_values(f).len(),
    ensures
        keys.contains(k),
        p(k),
        keys.filter(p).map_values(f)[i] == f(k),
        keys.filter(p)[i] == k,
{
    keys.lemma_filter_pred(p, i);
    let k = keys.filter(p)[i];
    assert(keys.filter(p).contains(k));
    keys.lemma_filter_contains_rev(p, k);
    k
}

/// As long as the switch cannot be read nothing is attached, updated or detached, and the plan
/// says so.
pub proof fn nothing_is_planned_without_the_switch(
    current: Map<Seq<char>, ManagedNeutronPortModel>,
    snapshot: NeutronSnapshotRequestModel,
    inventory: LocalInterfaceInventoryModel,
    scope: ScopeModel,
)
    requires
        inventory.ovs_error is Some,
    ensures
        ({
            let plan = snapshot_plan(current, snapshot, inventory, scope);
            &&& plan.attach == Seq::<NeutronPortSnapshotModel>::empty()
            &&& plan.update == Seq::<NeutronPortSnapshotModel>::empty()
            &&& plan.detach == Seq::<ManagedNeutronPortModel>::empty()
            &&& plan.inventory_error == Some("ovsdb_unavailable:"@ + inventory.ovs_error->0)
        }),
{
    reveal(Seq::filter);
    let n = snapshot.ports.len() as int;
    lemma_sorted_ports(snapshot.ports, current, inventory, scope, n);
    let sorted = sorted_ports(snapshot.ports, current, inventory, scope, n);
    let keys = in_order::<String>(sorted.desired.dom());
    lemma_in_order::<String>(sorted.desired.dom());
    assert(keys.len() == 0) by {
        if keys.len() > 0 {
            assert(keys.contains(keys[0]));
        }
    }
    let plan = snapshot_plan(current, snapshot, inventory, scope);
    assert(plan.attach =~= Seq::<NeutronPortSnapshotModel>::empty());
    assert(plan.update =~= Seq::<NeutronPortSnapshotModel>::empty());
}

/// A plan never leaves its scope: every port that it attaches, updates or detaches lies in it.
pub proof fn plans_stay_in_scope(
    current: Map<Seq<char>, ManagedNeutronPortModel>,
    snapshot: NeutronSnapshotRequestModel,
    inventory: LocalInterfaceInventoryModel,
    scope: ScopeModel,
    i: int,
)
    requires
        current.dom().finite(),
        keyed_by_id(current),
    ensures
        ({
            let plan = snapshot_plan(current, snapshot, inventory, scope);
            &&& 0 <= i < plan.attach.len() ==> scope.holds(plan.attach[i].port_id)
            &&& 0 <= i < plan.update.len() ==> scope.holds(plan.update[i].port_id)
            &&& 0 <= i < plan.detach.len() ==> scope.holds(plan.detach[i].port_id)
        }),
{
    let n = snapshot.ports.len() as int;
    lemma_sorted_ports(snapshot.ports, current, inventory, scope, n);
    let sorted = sorted_ports(snapshot.ports, current, inventory, scope, n);
    let keys = in_order::<String>(sorted.desired.dom());
    lemma_in_order::<String>(sorted.desired.dom());
    lemma_in_order::<String>(current.dom());
    let plan = snapshot_plan(current, snapshot, inventory, scope);
    let wanted = |id: Seq<char>| sorted.desired[id];
    if 0 <= i < plan.attach.len() {
        let p = |id: Seq<char>| !stays_bound(current, sorted.desired, id);
        let k = lemma_chosen(keys, p, wanted, i);
    }
    if 0 <= i < plan.update.len() {
        let p = |id: Seq<char>| stays_bound(current, sorted.desired, id);
        let k = lemma_chosen(keys, p, wanted, i);
    }
    if 0 <= i < plan.detach.len() {
        let p = |id: Seq<char>| must_detach(current, sorted, scope, id);
        let k = lemma_chosen(in_order::<String>(current.dom()), p, |id: Seq<char>| current[id], i);
        assert(current.dom().contains(k));
    }
}

/// Only a port that the snapshot names, and that is matched with an interface of the switch, is
/// attached or updated; it is updated exactly where the binding it has is the one it wants.
pub proof fn planned_ports_are_resolved(
    current: Map<Seq<char>, ManagedNeutronPortModel>,
    snapshot: NeutronSnapshotRequestModel,
    inventory: LocalInterfaceInventoryModel,
    scope: ScopeModel,
    i: int,
)
    ensures
        ({
            let plan = snapshot_plan(current, snapshot, inventory, scope);
            &&& 0 <= i < plan.attach.len() ==> {
                let port = plan.attach[i];
                &&& port.eligible
                &&& exists|j: int|
                    0 <= j < snapshot.ports.len() && port == resolved_port(
                        #[trigger] snapshot.ports[j],
                        inventory,
                    )
                &&& !stays_bound(current, map![port.port_id => port], port.port_id)
            }
            &&& 0 <= i < plan.update.len() ==> {
                let port = plan.update[i];
                &&& port.eligible
                &&& exists|j: int|
                    0 <= j < snapshot.ports.len() && port == resolved_port(
                        #[trigger] snapshot.ports[j],
                        inventory,
                    )
                &&& stays_bound(current, map![port.port_id => port], port.port_id)
            }
        }),
{
    let n = snapshot.ports.len() as int;
    lemma_sorted_ports(snapshot.ports, current, inventory, scope, n);
    let sorted = sorted_ports(snapshot.ports, current, inventory, scope, n);
    let keys = in_order::<String>(sorted.desired.dom());
    lemma_in_order::<String>(sorted.desired.dom());
    let plan = snapshot_plan(current, snapshot, inventory, scope);
    let wanted = |id: Seq<char>| sorted.desired[id];
    if 0 <= i < plan.attach.len() {
        let p = |id: Seq<char>| !stays_bound(current, sorted.desired, id);
        let k = lemma_chosen(keys, p, wanted, i);
        assert(sorted.desired.dom().contains(k));
    }
    if 0 <= i < plan.update.len() {
        let p = |id: Seq<char>| stays_bound(current, sorted.desired, id);
        let k = lemma_chosen(keys, p, wanted, i);
        assert(sorted.desired.dom().contains(k));
    }
}

proof fn lemma_with_ports_inside(
    base: Map<Seq<char>, ManagedNeutronPortModel>,
    ports: Seq<ManagedNeutronPortModel>,
    scope: ScopeModel,
    n: int,
)
    requires
        0 <= n <= ports.len(),
        base.dom().finite(),
        forall|k: Seq<char>| #[trigger] base.dom().contains(k) ==> scope.holds(base[k].port_id),
        forall|i: int| 0 <= i < ports.len() ==> scope.holds((#[trigger] ports[i]).port_id),
    ensures
        with_ports(base, ports, n).dom().finite(),
        forall|k: Seq<char>| #[trigger]
            with_ports(base, ports, n).dom().contains(k) ==> scope.holds(
                with_ports(base, ports, n)[k].port_id,
            ),
    decreases n,
{
    if n > 0 {
        lemma_with_ports_inside(base, ports, scope, n - 1);
    }
}

proof fn lemma_all_inside(ports: Seq<ManagedNeutronPortModel>, scope: ScopeModel, i: int)
    requires
        0 <= i <= ports.len(),
        forall|j: int| 0 <= j < ports.len() ==> scope.holds((#[trigger] ports[j]).port_id),
    ensures
        first_outside(ports, scope, i) is None,
    decreases ports.len() - i,
{
    if i < ports.len() {
        lemma_all_inside(ports, scope, i + 1);
    }
}

/// The plan of a snapshot that keeps to its scope always makes a transaction.
pub proof fn planned_snapshots_make_transactions(
    current: Map<Seq<char>, ManagedNeutronPortModel>,
    snapshot: NeutronSnapshotRequestModel,
    inventory: LocalInterfaceInventoryModel,
    scope: ScopeModel,
)
    requires
        current.dom().finite(),
        keyed_by_id(current),
        scope_fault(scope, snapshot) is None,
    ensures
        plan_transaction(
            scope,
            snapshot,
            snapshot_plan(current, snapshot, inventory, scope),
        ) is Ok,
{
    let plan = snapshot_plan(current, snapshot, inventory, scope);
    let update = managed_ports(plan.update);
    let attach = managed_ports(plan.attach);
    assert forall|i: int| 0 <= i < plan.detach.len() implies scope.holds(
        (#[trigger] plan.detach[i]).port_id,
    ) by {
        plans_stay_in_scope(current, snapshot, inventory, scope, i);
    }
    assert forall|i: int| 0 <= i < update.len() implies scope.holds(
        (#[trigger] update[i]).port_id,
    ) by {
        plans_stay_in_scope(current, snapshot, inventory, scope, i);
        assert(update[i].port_id == plan.update[i].port_id);
    }
    assert forall|i: int| 0 <= i < attach.len() implies scope.holds(
        (#[trigger] attach[i]).port_id,
    ) by {
        plans_stay_in_scope(current, snapshot, inventory, scope, i);
        assert(attach[i].port_id == plan.attach[i].port_id);
    }
    let m1 = with_ports(Map::empty(), plan.detach, plan.detach.len() as int);
    let m2 = with_ports(m1, update, update.len() as int);
    lemma_with_ports_inside(Map::empty(), plan.detach, scope, plan.detach.len() as int);
    lemma_with_ports_inside(m1, update, scope, update.len() as int);
    lemma_with_ports_inside(m2, attach, scope, attach.len() as int);
    let all = plan_ports(plan);
    let keys = in_order::<String>(all.dom());
    let ports = values_in_order::<String, ManagedNeutronPortModel>(all);
    lemma_in_order::<String>(all.dom());
    assert forall|j: int| 0 <= j < ports.len() implies scope.holds(
        (#[trigger] ports[j]).port_id,
    ) by {
        assert(keys.contains(keys[j]));
        assert(ports[j] == all[keys[j]]);
    }
    lemma_all_inside(ports, scope, 0);
}

/// The ports of a snapshot with the given identity.
pub open spec fn ports_of(
    ports: Seq<NeutronPortSnapshotModel>,
    target: Seq<char>,
) -> Seq<NeutronPortSnapshotModel> {
    ports.filter(|port: NeutronPortSnapshotModel| port.port_id == target)
}

/// Sorting looks at the ports of the target, and at what is managed under its name, alone.
proof fn lemma_sorting_sees_the_target(
    ports: Seq<NeutronPortSnapshotModel>,
    current: Map<Seq<char>, ManagedNeutronPortModel>,
    other: Map<Seq<char>, ManagedNeutronPortModel>,
    inventory: LocalInterfaceInventoryModel,
    target: Seq<char>,
    n: int,
)
    requires
        0 <= n <= ports.len(),
        lookup(current, target) == lookup(other, target),
    ensures
        ({
            let scope = ScopeModel::SinglePort(target);
            let own = ports_of(ports.take(n), target);
            sorted_ports(ports, current, inventory, scope, n) == sorted_ports(
                own,
                other,
                inventory,
                scope,
                own.len() as int,
            )
        }),
    decreases n,
{
    reveal(Seq::filter);
    let scope = ScopeModel::SinglePort(target);
    if n > 0 {
        let port = ports[n - 1];
        let own = ports_of(ports.take(n), target);
        let before = ports_of(ports.take(n - 1), target);
        lemma_sorting_sees_the_target(ports, current, other, inventory, target, n - 1);
        assert(ports.take(n).drop_last() =~= ports.take(n - 1));
        assert(ports.take(n).last() == port);
        if port.port_id == target {
            assert(own =~= before.push(port));
            lemma_sorting_of_a_prefix(own, before, other, inventory, scope, before.len() as int);
            assert(resolved_port(port, inventory).port_id == target);
        } else {
            assert(own =~= before);
        }
    } else {
        assert(ports_of(ports.take(0), target) =~= Seq::empty());
    }
}

proof fn lemma_sorting_of_a_prefix(
    ports: Seq<NeutronPortSnapshotModel>,
    prefix: Seq<NeutronPortSnapshotModel>,
    current: Map<Seq<char>, ManagedNeutronPortModel>,
    inventory: LocalInterfaceInventoryModel,
    scope: ScopeModel,
    n: int,
)
    requires
        n <= prefix.len() <= ports.len(),
        forall|i: int| 0 <= i < prefix.len() ==> ports[i] == #[trigger] prefix[i],
    ensures
        sorted_ports(ports, current, inventory, scope, n) == sorted_ports(
            prefix,
            current,
            inventory,
            scope,
            n,
        ),
    decreases n,
{
    if n > 0 {
        lemma_sorting_of_a_prefix(ports, prefix, current, inventory, scope, n - 1);
        assert(ports[n - 1] == prefix[n - 1]);
    }
}

/// What a port of one identity comes to when it is sorted.
proof fn lemma_sorted_target(
    ports: Seq<NeutronPortSnapshotModel>,
    current: Map<Seq<char>, ManagedNeutronPortModel>,
    inventory: LocalInterfaceInventoryModel,
    target: Seq<char>,
    n: int,
)
    requires
        0 <= n <= ports.len(),
    ensures
        ({
            let sorted = sorted_ports(
                ports,
                current,
                inventory,
                ScopeModel::SinglePort(target),
                n,
            );
            &&& forall|i: int|
                0 <= i < sorted.ignored.len() ==> (#[trigger] sorted.ignored[i]).port_id == target
            &&& (forall|i: int| 0 <= i < n ==> (#[trigger] ports[i]).port_id != target) ==> {
                &&& sorted.desired == Map::<Seq<char>, NeutronPortSnapshotModel>::empty()
                &&& sorted.ignored.len() == 0
                &&& !sorted.target_seen
            }
        }),
    decreases n,
{
    if n > 0 {
        lemma_sorted_target(ports, current, inventory, target, n - 1);
        assert(resolved_port(ports[n - 1], inventory).port_id == ports[n - 1].port_id);
    }
}

/// Of keys in order at most one is chosen where only one can be.
proof fn lemma_one_chosen(
    keys: Seq<Seq<char>>,
    p: spec_fn(Seq<char>) -> bool,
    target: Seq<char>,
)
    requires
        keys.no_duplicates(),
        forall|i: int| 0 <= i < keys.len() && p(#[trigger] keys[i]) ==> keys[i] == target,
    ensures
        keys.filter(p) == if keys.contains(target) && p(target) {
            seq![target]
        } else {
            Seq::empty()
        },
    decreases keys.len(),
{
    reveal(Seq::filter);
    if keys.len() > 0 {
        let rest = keys.drop_last();
        let last = keys.last();
        assert forall|i: int| 0 <= i < rest.len() && p(#[trigger] rest[i]) implies rest[i]
            == target by {
            assert(rest[i] == keys[i]);
        }
        lemma_one_chosen(rest, p, target);
        if keys.contains(target) {
            let i = choose|i: int| 0 <= i < keys.len() && keys[i] == target;
            if i < rest.len() {
                assert(rest[i] == target);
                assert(last != target) by {
                    assert(keys[i] != keys[keys.len() - 1]);
                }
            }
        }
        if rest.contains(target) {
            let i = choose|i: int| 0 <= i < rest.len() && rest[i] == target;
            assert(keys[i] == target);
            assert(keys[i] != keys[keys.len() - 1]);
        }
        assert(p(last) ==> keys[keys.len() - 1] == target);
        if p(last) {
            assert(keys[keys.len() - 1] == last);
            assert(!rest.contains(target));
            assert(keys.filter(p) =~= seq![target]);
        } else {
            assert(keys.filter(p) =~= rest.filter(p));
        }
    } else {
        assert(keys.filter(p) =~= Seq::empty());
    }
}

proof fn lemma_in_order_distinct(members: Set<Seq<char>>)
    requires
        members.finite(),
    ensures
        in_order::<String>(members).no_duplicates(),
        forall|k: Seq<char>| #[trigger]
            in_order::<String>(members).contains(k) <==> members.contains(k),
{
    lemma_in_order::<String>(members);
    let keys = in_order::<String>(members);
    assert forall|i: int, j: int| 0 <= i < keys.len() && 0 <= j < keys.len() && i != j implies keys[i]
        != keys[j] by {
        crate::text::text_before_irreflexive(keys[i]);
        if i < j {
            assert(crate::text::text_before(keys[i], keys[j]));
        } else {
            assert(crate::text::text_before(keys[j], keys[i]));
        }
    }
}

/// The lists of the plan of a single port, from what its sorting came to.
proof fn lemma_target_plan(
    current: Map<Seq<char>, ManagedNeutronPortModel>,
    snapshot: NeutronSnapshotRequestModel,
    inventory: LocalInterfaceInventoryModel,
    target: Seq<char>,
)
    requires
        current.dom().finite(),
    ensures
        ({
            let scope = ScopeModel::SinglePort(target);
            let plan = snapshot_plan(current, snapshot, inventory, scope);
            let sorted = sorted_ports(
                snapshot.ports,
                current,
                inventory,
                scope,
                snapshot.ports.len() as int,
            );
            let wanted = sorted.desired.dom().contains(target);
            let bound = stays_bound(current, sorted.desired, target);
            &&& plan.attach == if wanted && !bound {
                seq![sorted.desired[target]]
            } else {
                Seq::empty()
            }
            &&& plan.update == if wanted && bound {
                seq![sorted.desired[target]]
            } else {
                Seq::empty()
            }
            &&& plan.detach == if inventory.ovs_error is None && current.dom().contains(target)
                && must_detach(current, sorted, scope, target) {
                seq![current[target]]
            } else {
                Seq::empty()
            }
        }),
{
    let scope = ScopeModel::SinglePort(target);
    let n = snapshot.ports.len() as int;
    lemma_sorted_ports(snapshot.ports, current, inventory, scope, n);
    let sorted = sorted_ports(snapshot.ports, current, inventory, scope, n);
    let plan = snapshot_plan(current, snapshot, inventory, scope);
    let keys = in_order::<String>(sorted.desired.dom());
    lemma_in_order_distinct(sorted.desired.dom());
    assert forall|i: int| 0 <= i < keys.len() implies #[trigger] keys[i] == target by {
        assert(keys.contains(keys[i]));
        assert(scope.holds(keys[i]));
    }
    let free = |id: Seq<char>| !stays_bound(current, sorted.desired, id);
    let bound = |id: Seq<char>| stays_bound(current, sorted.desired, id);
    let doomed = |id: Seq<char>| must_detach(current, sorted, scope, id);
    lemma_one_chosen(keys, free, target);
    lemma_one_chosen(keys, bound, target);
    let managed = in_order::<String>(current.dom());
    lemma_in_order_distinct(current.dom());
    lemma_one_chosen(managed, doomed, target);
    let wanted = |id: Seq<char>| sorted.desired[id];
    let kept = |id: Seq<char>| current[id];
    assert(seq![target].map_values(wanted) =~= seq![sorted.desired[target]]);
    assert(seq![target].map_values(kept) =~= seq![current[target]]);
    assert(Seq::<Seq<char>>::empty().map_values(wanted) =~= Seq::empty());
    assert(Seq::<Seq<char>>::empty().map_values(kept) =~= Seq::empty());
}

/// The plan of a single port is about that port alone: so is every port that it attaches, updates
/// or detaches, and every one that it passes over; at most one is attached or updated, and at most
/// one detached. A snapshot that does not hold the port plans nothing.
pub proof fn single_port_plans_concern_their_port(
    current: Map<Seq<char>, ManagedNeutronPortModel>,
    snapshot: NeutronSnapshotRequestModel,
    inventory: LocalInterfaceInventoryModel,
    target: Seq<char>,
)
    requires
        current.dom().finite(),
        keyed_by_id(current),
    ensures
        ({
            let plan = snapshot_plan(
                current,
                snapshot,
                inventory,
                ScopeModel::SinglePort(target),
            );
            &&& forall|i: int|
                0 <= i < plan.attach.len() ==> (#[trigger] plan.attach[i]).port_id == target
            &&& forall|i: int|
                0 <= i < plan.update.len() ==> (#[trigger] plan.update[i]).port_id == target
            &&& forall|i: int|
                0 <= i < plan.detach.len() ==> (#[trigger] plan.detach[i]).port_id == target
            &&& forall|i: int|
                0 <= i < plan.ignored.len() ==> (#[trigger] plan.ignored[i]).port_id == target
            &&& plan.attach.len() + plan.update.len() <= 1
            &&& plan.detach.len() <= 1
            &&& (forall|i: int|
                0 <= i < snapshot.ports.len() ==> (#[trigger] snapshot.ports[i]).port_id != target)
                ==> plan.attach.len() == 0 && plan.update.len() == 0 && plan.detach.len() == 0
                && plan.ignored.len() == 0
        }),
{
    let n = snapshot.ports.len() as int;
    let scope = ScopeModel::SinglePort(target);
    lemma_sorted_ports(snapshot.ports, current, inventory, scope, n);
    lemma_sorted_target(snapshot.ports, current, inventory, target, n);
    lemma_target_plan(current, snapshot, inventory, target);
}

/// The plan of a single port does not depend on any other: whatever other ports are managed or
/// stand in the snapshot, the plan is the same.
pub proof fn other_ports_do_not_change_the_plan(
    current: Map<Seq<char>, ManagedNeutronPortModel>,
    other_current: Map<Seq<char>, ManagedNeutronPortModel>,
    snapshot: NeutronSnapshotRequestModel,
    other_snapshot: NeutronSnapshotRequestModel,
    inventory: LocalInterfaceInventoryModel,
    target: Seq<char>,
)
    requires
        current.dom().finite(),
        other_current.dom().finite(),
        lookup(current, target) == lookup(other_current, target),
        ports_of(snapshot.ports, target) == ports_of(other_snapshot.ports, target),
    ensures
        snapshot_plan(current, snapshot, inventory, ScopeModel::SinglePort(target))
            == snapshot_plan(
            other_current,
            other_snapshot,
            inventory,
            ScopeModel::SinglePort(target),
        ),
{
    let a = snapshot.ports;
    let b = other_snapshot.ports;
    assert(a.take(a.len() as int) =~= a);
    assert(b.take(b.len() as int) =~= b);
    lemma_sorting_sees_the_target(a, current, current, inventory, target, a.len() as int);
    lemma_sorting_sees_the_target(b, other_current, current, inventory, target, b.len() as int);
    lemma_target_plan(current, snapshot, inventory, target);
    lemma_target_plan(other_current, other_snapshot, inventory, target);
    let scope = ScopeModel::SinglePort(target);
    let sorted = sorted_ports(a, current, inventory, scope, a.len() as int);
    assert(stays_bound(current, sorted.desired, target) == stays_bound(
        other_current,
        sorted.desired,
        target,
    ));
}

} // verus!
