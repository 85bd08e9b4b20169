//! Which ports a plan attaches, updates and detaches, and which it passes over.

use crate::inventory::{tap_name, LocalInterfaceInventoryModel, LocalOvsInterfaceModel};
use crate::model::{
    ManagedNeutronPortModel, NeutronPortApplyResultModel, NeutronPortSnapshotModel,
    NeutronSnapshotRequestModel,
};
use crate::ordered::{in_order, lemma_in_order};
use crate::plan::{must_detach, resolved_port, snapshot_plan, sort_port, sorted_ports, stays_bound};
use crate::plan_laws::{keyed_by_id, lemma_chosen};
use crate::scope::ScopeModel;
use crate::text::trimmed;
use vstd::prelude::*;

verus! {

/// True when a port is of the kind that is managed: it is offered, it belongs to an instance, and
/// it is an ordinary port of the switch.
pub open spec fn manageable(port: NeutronPortSnapshotModel) -> bool {
    &&& port.eligible
    &&& (port.device_owner matches Some(owner) ==> owner.len() == 0 || (owner.len() >= 8
        && owner.take(8) == "compute:"@))
    &&& (port.vif_type matches Some(kind) ==> kind.len() == 0 || kind == "ovs"@)
    &&& (port.vnic_type matches Some(kind) ==> kind.len() == 0 || kind == "normal"@)
}

/// True when an interface is the one that the switch has for a port: the one with the identity of
/// the port, or else the one with its name.
pub open spec fn found_for(
    port: NeutronPortSnapshotModel,
    inventory: LocalInterfaceInventoryModel,
    interface: LocalOvsInterfaceModel,
) -> bool {
    if inventory.by_iface_id.dom().contains(port.port_id) {
        inventory.by_iface_id[port.port_id] == interface
    } else {
        &&& trimmed(port.ifname).len() > 0
        &&& inventory.by_name.dom().contains(trimmed(port.ifname))
        &&& inventory.by_name[trimmed(port.ifname)] == interface
    }
}

/// True when a port is plugged into the managed bridge by an interface that bears its identity.
pub open spec fn plugged(
    port: NeutronPortSnapshotModel,
    inventory: LocalInterfaceInventoryModel,
    interface: LocalOvsInterfaceModel,
) -> bool {
    &&& inventory.ovs_error is None
    &&& found_for(port, inventory, interface)
    &&& interface.bridge == Some(inventory.ovs_bridge)
    &&& interface.iface_id == Some(port.port_id)
}

/// True when the kernel index of an interface is known to be `index`.
pub open spec fn indexed(
    inventory: LocalInterfaceInventoryModel,
    interface: LocalOvsInterfaceModel,
    index: u32,
) -> bool {
    match interface.ifindex {
        Some(own) => own == index,
        None => inventory.ifindexes.dom().contains(interface.name)
            && inventory.ifindexes[interface.name] == index,
    }
}

/// True when a port can be managed now, under a name and an index of the host.
pub open spec fn fit(
    port: NeutronPortSnapshotModel,
    inventory: LocalInterfaceInventoryModel,
    name: Seq<char>,
    index: u32,
) -> bool {
    &&& manageable(port)
    &&& trimmed(port.port_id).len() > 0
    &&& trimmed(name).len() > 0
    &&& exists|interface: LocalOvsInterfaceModel| #[trigger]
        plugged(port, inventory, interface) && interface.name == name && indexed(
            inventory,
            interface,
            index,
        )
}

/// True when a planned port is a port of the snapshot under the name and index of the host, and
/// otherwise just what the snapshot asks for.
pub open spec fn asks_for(
    planned: NeutronPortSnapshotModel,
    asked: NeutronPortSnapshotModel,
    name: Seq<char>,
    index: u32,
) -> bool {
    &&& planned.port_id == asked.port_id
    &&& planned.ifname == name
    &&& planned.ifindex == Some(index)
    &&& planned.eligible
    &&& planned.ovs_iface_id == Some(asked.port_id)
    &&& planned.managed_domains == asked.managed_domains
    &&& planned.acl == asked.acl
    &&& planned.acl_payload == asked.acl_payload
    &&& planned.device_owner == asked.device_owner
    &&& planned.vif_type == asked.vif_type
    &&& planned.vnic_type == asked.vnic_type
}

/// A port that is plugged in resolves to the interface it is plugged in with, and keeps what the
/// snapshot asks for.
pub proof fn plugged_ports_resolve(
    port: NeutronPortSnapshotModel,
    inventory: LocalInterfaceInventoryModel,
    interface: LocalOvsInterfaceModel,
    index: u32,
)
    requires
        manageable(port),
        plugged(port, inventory, interface),
        indexed(inventory, interface, index),
    ensures
        asks_for(resolved_port(port, inventory), port, interface.name, index),
{
    reveal_strlit("compute:");
}

/// Nothing else resolves: a port that comes out eligible is of the managed kind, and is plugged in
/// by an interface whose index is known. Any other keeps its identity, loses its domains, and is
/// told why.
pub proof fn resolved_ports_are_plugged(
    port: NeutronPortSnapshotModel,
    inventory: LocalInterfaceInventoryModel,
)
    ensures
        ({
            let resolved = resolved_port(port, inventory);
            &&& resolved.port_id == port.port_id
            &&& resolved.eligible ==> {
                &&& manageable(port)
                &&& exists|interface: LocalOvsInterfaceModel, index: u32| #[trigger]
                    plugged(port, inventory, interface) && #[trigger] indexed(
                        inventory,
                        interface,
                        index,
                    ) && asks_for(resolved, port, interface.name, index)
            }
            &&& !resolved.eligible ==> {
                &&& resolved.managed_domains == Seq::<Seq<char>>::empty()
                &&& resolved.disposition is Some
            }
        }),
{
    reveal_strlit("compute:");
    let resolved = resolved_port(port, inventory);
    if resolved.eligible {
        let interface = if inventory.by_iface_id.dom().contains(port.port_id) {
            inventory.by_iface_id[port.port_id]
        } else {
            inventory.by_name[trimmed(port.ifname)]
        };
        let index = match interface.ifindex {
            Some(own) => own,
            None => inventory.ifindexes[interface.name],
        };
        assert(plugged(port, inventory, interface));
        assert(indexed(inventory, interface, index));
    }
}

/// The reason that is given for a port names the first thing that stands against it.
pub proof fn ports_are_told_why(
    port: NeutronPortSnapshotModel,
    inventory: LocalInterfaceInventoryModel,
)
    ensures
        ({
            let told = resolved_port(port, inventory).disposition;
            let owned = port.device_owner matches Some(owner) ==> owner.len() == 0 || (owner.len()
                >= 8 && owner.take(8) == "compute:"@);
            let switched = port.vif_type matches Some(kind) ==> kind.len() == 0 || kind == "ovs"@;
            let plain = port.vnic_type matches Some(kind) ==> kind.len() == 0 || kind == "normal"@;
            &&& !port.eligible && port.disposition is Some ==> told == port.disposition
            &&& !port.eligible && port.disposition is None ==> told == Some("not eligible"@)
            &&& port.eligible && !owned ==> told == Some(
                "not_applicable_device_owner:"@ + port.device_owner->0,
            )
            &&& port.eligible && owned && !switched ==> told == Some(
                "unsupported_vif_type:"@ + port.vif_type->0,
            )
            &&& port.eligible && owned && switched && !plain ==> told == Some(
                "unsupported_vnic_type:"@ + port.vnic_type->0,
            )
            &&& manageable(port) && inventory.ovs_error is Some ==> told == Some(
                "ovsdb_unavailable:"@ + inventory.ovs_error->0,
            )
            &&& manageable(port) && inventory.ovs_error is None ==> {
                &&& (forall|interface: LocalOvsInterfaceModel| !found_for(port, inventory, interface))
                    ==> told == Some("ovs_iface_id_not_found"@)
                &&& forall|interface: LocalOvsInterfaceModel| #[trigger]
                    found_for(port, inventory, interface) ==> {
                        &&& interface.bridge != Some(inventory.ovs_bridge) ==> told == Some(
                            "not_on_ovs_bridge:"@ + inventory.ovs_bridge,
                        )
                        &&& interface.bridge == Some(inventory.ovs_bridge) && interface.iface_id
                            != Some(port.port_id) ==> told == Some("ovs_iface_id_mismatch"@)
                        &&& plugged(port, inventory, interface) && (forall|index: u32|
                            !indexed(inventory, interface, index)) ==> told == Some(
                            "ifindex_not_ready"@,
                        )
                        &&& plugged(port, inventory, interface) && (exists|index: u32|
                            indexed(inventory, interface, index)) ==> told == Some(
                            "eligible_ovs_tap"@,
                        )
                    }
            }
        }),
{
    reveal_strlit("compute:");
    if manageable(port) && inventory.ovs_error is None {
        if inventory.by_iface_id.dom().contains(port.port_id) {
            let interface = inventory.by_iface_id[port.port_id];
            assert(found_for(port, inventory, interface));
            lemma_index(inventory, interface);
        } else if trimmed(port.ifname).len() > 0 && inventory.by_name.dom().contains(
            trimmed(port.ifname),
        ) {
            let interface = inventory.by_name[trimmed(port.ifname)];
            assert(found_for(port, inventory, interface));
            lemma_index(inventory, interface);
        }
    }
}

proof fn lemma_index(inventory: LocalInterfaceInventoryModel, interface: LocalOvsInterfaceModel)
    ensures
        (exists|index: u32| indexed(inventory, interface, index))
            <==> crate::plan::interface_index(interface, inventory.ifindexes) is Some,
{
    if let Some(index) = crate::plan::interface_index(interface, inventory.ifindexes) {
        assert(indexed(inventory, interface, index));
    }
}

/// True when a managed port is only waiting for the index of its interface: the snapshot has it,
/// and it is plugged in under the name that it is managed under.
pub open spec fn awaits_index(
    current: Map<Seq<char>, ManagedNeutronPortModel>,
    snapshot: NeutronSnapshotRequestModel,
    inventory: LocalInterfaceInventoryModel,
    k: Seq<char>,
) -> bool {
    exists|j: int|
        0 <= j < snapshot.ports.len() && (#[trigger] snapshot.ports[j]).port_id == k
            && resolved_port(snapshot.ports[j], inventory).disposition == Some(
            "ifindex_not_ready"@,
        ) && !resolved_port(snapshot.ports[j], inventory).eligible && current.dom().contains(k)
            && resolved_port(snapshot.ports[j], inventory).ifname == current[k].ifname
}

proof fn lemma_sorted(
    current: Map<Seq<char>, ManagedNeutronPortModel>,
    snapshot: NeutronSnapshotRequestModel,
    inventory: LocalInterfaceInventoryModel,
    scope: ScopeModel,
    n: int,
)
    requires
        0 <= n <= snapshot.ports.len(),
    ensures
        ({
            let ports = snapshot.ports;
            let sorted = sorted_ports(ports, current, inventory, scope, n);
            &&& sorted.desired.dom().finite()
            &&& forall|k: Seq<char>| #[trigger]
                sorted.desired.dom().contains(k) ==> {
                    &&& scope.holds(k)
                    &&& trimmed(k).len() > 0
                    &&& sorted.desired[k].port_id == k
                    &&& sorted.desired[k].eligible
                    &&& trimmed(sorted.desired[k].ifname).len() > 0
                    &&& exists|j: int|
                        0 <= j < n && sorted.desired[k] == resolved_port(
                            #[trigger] ports[j],
                            inventory,
                        )
                }
            &&& forall|j: int|
                0 <= j < n && scope.holds((#[trigger] ports[j]).port_id) ==> {
                    ||| sorted.desired.dom().contains(ports[j].port_id)
                    ||| exists|i: int|
                        0 <= i < sorted.ignored.len() && (#[trigger] sorted.ignored[i]).port_id
                            == ports[j].port_id
                }
            &&& forall|j: int|
                0 <= j < n && scope.holds((#[trigger] ports[j]).port_id) && trimmed(
                    ports[j].port_id,
                ).len() > 0 && resolved_port(ports[j], inventory).eligible && trimmed(
                    resolved_port(ports[j], inventory).ifname,
                ).len() > 0 ==> sorted.desired.dom().contains(ports[j].port_id)
            &&& forall|k: Seq<char>| #[trigger]
                sorted.deferred.contains(k) ==> awaits_index(current, snapshot, inventory, k)
                    && sorted.inventory_error is Some
            &&& inventory.ovs_error is Some ==> sorted.inventory_error is Some
            &&& sorted.target_seen ==> exists|j: int|
                0 <= j < n && scope.holds((#[trigger] ports[j]).port_id)
            &&& scope is SinglePort && (exists|j: int|
                0 <= j < n && scope.holds((#[trigger] ports[j]).port_id)) ==> sorted.target_seen
            &&& forall|i: int|
                0 <= i < sorted.ignored.len() ==> {
                    &&& (#[trigger] sorted.ignored[i]).action == "ignore"@
                    &&& sorted.ignored[i].status == "ignored"@
                    &&& sorted.ignored[i].reason is Some
                    &&& scope.holds(sorted.ignored[i].port_id)
                }
        }),
    decreases n,
{
    if n > 0 {
        lemma_sorted(current, snapshot, inventory, scope, n - 1);
        let ports = snapshot.ports;
        let port = ports[n - 1];
        let before = sorted_ports(ports, current, inventory, scope, n - 1);
        let sorted = sorted_ports(ports, current, inventory, scope, n);
        assert(sorted == sort_port(before, port, current, inventory, scope));
        let resolved = resolved_port(port, inventory);
        resolved_ports_are_plugged(port, inventory);
        assert forall|i: int| 0 <= i < before.ignored.len() implies sorted.ignored[i]
            == #[trigger] before.ignored[i] by {}
        if sorted.ignored != before.ignored {
            assert(sorted.ignored.last().port_id == port.port_id);
            assert(sorted.ignored[sorted.ignored.len() - 1].port_id == port.port_id);
        }
        assert forall|j: int| 0 <= j < n && scope.holds((#[trigger] ports[j]).port_id) implies {
            ||| sorted.desired.dom().contains(ports[j].port_id)
            ||| exists|i: int|
                0 <= i < sorted.ignored.len() && (#[trigger] sorted.ignored[i]).port_id
                    == ports[j].port_id
        } by {
            if j < n - 1 && !before.desired.dom().contains(ports[j].port_id) {
                let i = choose|i: int|
                    0 <= i < before.ignored.len() && (#[trigger] before.ignored[i]).port_id
                        == ports[j].port_id;
                assert(sorted.ignored[i] == before.ignored[i]);
            }
        }
        assert forall|k: Seq<char>| #[trigger] sorted.deferred.contains(k) implies awaits_index(
            current,
            snapshot,
            inventory,
            k,
        ) && sorted.inventory_error is Some by {
            if !before.deferred.contains(k) {
                assert(ports[n - 1].port_id == k);
            }
        }
        assert forall|k: Seq<char>| #[trigger] sorted.desired.dom().contains(k) implies {
            &&& scope.holds(k)
            &&& trimmed(k).len() > 0
            &&& sorted.desired[k].port_id == k
            &&& sorted.desired[k].eligible
            &&& trimmed(sorted.desired[k].ifname).len() > 0
            &&& exists|j: int|
                0 <= j < n && sorted.desired[k] == resolved_port(#[trigger] ports[j], inventory)
        } by {
            if sorted.desired[k] == resolved && k == resolved.port_id && !(
            before.desired.dom().contains(k) && sorted.desired == before.desired) {
                assert(sorted.desired[k] == resolved_port(ports[n - 1], inventory));
            } else {
                assert(before.desired.dom().contains(k));
                assert(sorted.desired[k] == before.desired[k]);
            }
        }
        if before.target_seen {
            let j = choose|j: int| 0 <= j < n - 1 && scope.holds((#[trigger] ports[j]).port_id);
            assert(scope.holds(ports[j].port_id));
        } else if sorted.target_seen {
            assert(scope.holds(ports[n - 1].port_id));
        }
    }
}

proof fn lemma_listed<A>(
    keys: Seq<Seq<char>>,
    p: spec_fn(Seq<char>) -> bool,
    f: spec_fn(Seq<char>) -> A,
    k: Seq<char>,
) -> (i: int)
    requires
        keys.contains(k),
        p(k),
    ensures
        0 <= i < keys.filter(p).map_values(f).len(),
        keys.filter(p)[i] == k,
        keys.filter(p).map_values(f)[i] == f(k),
{
    let j = keys.index_of(k);
    assert(keys[j] == k);
    keys.lemma_filter_contains(p, j);
    keys.filter(p).index_of(k)
}

/// Every port that a plan attaches or updates is asked for by the snapshot and fit to be managed:
/// it belongs to an instance, is an ordinary port of the switch, and is plugged into the managed
/// bridge by an interface that bears its identity and whose index is known. It is updated where it
/// is managed under that name and index already, and attached otherwise.
pub proof fn planned_ports_are_fit(
    current: Map<Seq<char>, ManagedNeutronPortModel>,
    snapshot: NeutronSnapshotRequestModel,
    inventory: LocalInterfaceInventoryModel,
    scope: ScopeModel,
    planned: NeutronPortSnapshotModel,
)
    ensures
        ({
            let plan = snapshot_plan(current, snapshot, inventory, scope);
            let bound = current.dom().contains(planned.port_id) && current[planned.port_id].ifname
                == planned.ifname && (current[planned.port_id].ifindex is None
                || planned.ifindex is None || current[planned.port_id].ifindex == planned.ifindex);
            &&& plan.attach.contains(planned) || plan.update.contains(planned) ==> exists|j: int|
                0 <= j < snapshot.ports.len() && fit(
                    #[trigger] snapshot.ports[j],
                    inventory,
                    planned.ifname,
                    planned.ifindex->0,
                ) && asks_for(planned, snapshot.ports[j], planned.ifname, planned.ifindex->0)
            &&& plan.attach.contains(planned) ==> !bound
            &&& plan.update.contains(planned) ==> bound
        }),
{
    let n = snapshot.ports.len() as int;
    lemma_sorted(current, snapshot, inventory, scope, n);
    let plan = snapshot_plan(current, snapshot, inventory, scope);
    let sorted = sorted_ports(snapshot.ports, current, inventory, scope, n);
    let keys = in_order::<String>(sorted.desired.dom());
    lemma_in_order::<String>(sorted.desired.dom());
    let wanted = |id: Seq<char>| sorted.desired[id];
    if plan.attach.contains(planned) || plan.update.contains(planned) {
        let k = if plan.attach.contains(planned) {
            let i = plan.attach.index_of(planned);
            lemma_chosen(
                keys,
                |id: Seq<char>| !stays_bound(current, sorted.desired, id),
                wanted,
                i,
            )
        } else {
            let i = plan.update.index_of(planned);
            lemma_chosen(keys, |id: Seq<char>| stays_bound(current, sorted.desired, id), wanted, i)
        };
        assert(sorted.desired.dom().contains(k));
        assert(planned == sorted.desired[k]);
        let j = choose|j: int|
            0 <= j < n && sorted.desired[k] == resolved_port(
                #[trigger] snapshot.ports[j],
                inventory,
            );
        resolved_ports_are_plugged(snapshot.ports[j], inventory);
        assert(fit(snapshot.ports[j], inventory, planned.ifname, planned.ifindex->0));
        if plan.attach.contains(planned) {
            let i = plan.attach.index_of(planned);
            let q = lemma_chosen(
                keys,
                |id: Seq<char>| !stays_bound(current, sorted.desired, id),
                wanted,
                i,
            );
            assert(sorted.desired.dom().contains(q));
        }
        if plan.update.contains(planned) {
            let i = plan.update.index_of(planned);
            let q = lemma_chosen(
                keys,
                |id: Seq<char>| stays_bound(current, sorted.desired, id),
                wanted,
                i,
            );
            assert(sorted.desired.dom().contains(q));
        }
    }
}

/// Every port of the snapshot that is in scope and fit to be managed is attached or updated; one
/// that is not is passed over with a reason.
pub proof fn fit_ports_are_planned(
    current: Map<Seq<char>, ManagedNeutronPortModel>,
    snapshot: NeutronSnapshotRequestModel,
    inventory: LocalInterfaceInventoryModel,
    scope: ScopeModel,
    j: int,
    name: Seq<char>,
    index: u32,
)
    requires
        0 <= j < snapshot.ports.len(),
        scope.holds(snapshot.ports[j].port_id),
    ensures
        ({
            let plan = snapshot_plan(current, snapshot, inventory, scope);
            let port = snapshot.ports[j];
            let planned = (exists|i: int|
                0 <= i < plan.attach.len() && (#[trigger] plan.attach[i]).port_id == port.port_id)
                || (exists|i: int|
                0 <= i < plan.update.len() && (#[trigger] plan.update[i]).port_id == port.port_id);
            let passed_over = exists|i: int|
                0 <= i < plan.ignored.len() && (#[trigger] plan.ignored[i]).port_id == port.port_id
                    && plan.ignored[i].action == "ignore"@ && plan.ignored[i].status == "ignored"@
                    && plan.ignored[i].reason is Some;
            &&& fit(port, inventory, name, index) ==> planned
            &&& planned || passed_over
        }),
{
    let n = snapshot.ports.len() as int;
    let port = snapshot.ports[j];
    lemma_sorted(current, snapshot, inventory, scope, n);
    let plan = snapshot_plan(current, snapshot, inventory, scope);
    let sorted = sorted_ports(snapshot.ports, current, inventory, scope, n);
    let keys = in_order::<String>(sorted.desired.dom());
    lemma_in_order::<String>(sorted.desired.dom());
    let wanted = |id: Seq<char>| sorted.desired[id];
    if fit(port, inventory, name, index) {
        let interface = choose|interface: LocalOvsInterfaceModel| #[trigger]
            plugged(port, inventory, interface) && interface.name == name && indexed(
                inventory,
                interface,
                index,
            );
        plugged_ports_resolve(port, inventory, interface, index);
        assert(sorted.desired.dom().contains(port.port_id));
    }
    if sorted.desired.dom().contains(port.port_id) {
        let k = port.port_id;
        assert(keys.contains(k));
        if stays_bound(current, sorted.desired, k) {
            let i = lemma_listed(
                keys,
                |id: Seq<char>| stays_bound(current, sorted.desired, id),
                wanted,
                k,
            );
            assert(plan.update[i].port_id == k);
        } else {
            let i = lemma_listed(
                keys,
                |id: Seq<char>| !stays_bound(current, sorted.desired, id),
                wanted,
                k,
            );
            assert(plan.attach[i].port_id == k);
        }
    } else {
        let i = choose|i: int|
            0 <= i < sorted.ignored.len() && (#[trigger] sorted.ignored[i]).port_id == port.port_id;
        assert(plan.ignored[i].port_id == port.port_id);
    }
}

/// A managed port is detached exactly where the snapshot speaks for it and does not keep it: a
/// snapshot of the whole host speaks for every port, one of a single port for that port if it holds
/// it. A port that is kept is updated; one that is attached anew is detached first. Ports that only
/// wait for the index of their interface are left alone, and then the plan says that the inventory
/// is not complete. As long as the switch cannot be read nothing is detached.
pub proof fn unwanted_ports_are_detached(
    current: Map<Seq<char>, ManagedNeutronPortModel>,
    snapshot: NeutronSnapshotRequestModel,
    inventory: LocalInterfaceInventoryModel,
    scope: ScopeModel,
    k: Seq<char>,
)
    requires
        current.dom().finite(),
        keyed_by_id(current),
        current.dom().contains(k),
    ensures
        ({
            let plan = snapshot_plan(current, snapshot, inventory, scope);
            let spoken_for = scope is FullHost || (scope.holds(k) && exists|j: int|
                0 <= j < snapshot.ports.len() && (#[trigger] snapshot.ports[j]).port_id == k);
            let kept = exists|i: int|
                0 <= i < plan.update.len() && (#[trigger] plan.update[i]).port_id == k;
            let detached = plan.detach.contains(current[k]);
            &&& detached ==> spoken_for && !kept && inventory.ovs_error is None
            &&& plan.inventory_error is None ==> (detached <==> spoken_for && !kept)
            &&& inventory.ovs_error is None && spoken_for && !kept && !detached ==> awaits_index(
                current,
                snapshot,
                inventory,
                k,
            )
        }),
{
    let n = snapshot.ports.len() as int;
    lemma_sorted(current, snapshot, inventory, scope, n);
    let plan = snapshot_plan(current, snapshot, inventory, scope);
    let sorted = sorted_ports(snapshot.ports, current, inventory, scope, n);
    let keys = in_order::<String>(sorted.desired.dom());
    let own = in_order::<String>(current.dom());
    lemma_in_order::<String>(sorted.desired.dom());
    lemma_in_order::<String>(current.dom());
    let wanted = |id: Seq<char>| sorted.desired[id];
    let held = |id: Seq<char>| current[id];
    let bound = |id: Seq<char>| stays_bound(current, sorted.desired, id);
    let goes = |id: Seq<char>| must_detach(current, sorted, scope, id);
    let kept = exists|i: int|
        0 <= i < plan.update.len() && (#[trigger] plan.update[i]).port_id == k;
    assert(kept <==> stays_bound(current, sorted.desired, k)) by {
        if stays_bound(current, sorted.desired, k) {
            assert(keys.contains(k));
            let i = lemma_listed(keys, bound, wanted, k);
            assert(plan.update[i].port_id == k);
        }
        if kept {
            let i = choose|i: int|
                0 <= i < plan.update.len() && (#[trigger] plan.update[i]).port_id == k;
            let q = lemma_chosen(keys, bound, wanted, i);
            assert(sorted.desired.dom().contains(q));
        }
    }
    if plan.detach.contains(current[k]) {
        let i = plan.detach.index_of(current[k]);
        let q = lemma_chosen(own, goes, held, i);
        assert(current.dom().contains(q));
    }
    if inventory.ovs_error is None && must_detach(current, sorted, scope, k) {
        assert(own.contains(k));
        let i = lemma_listed(own, goes, held, k);
        assert(plan.detach[i] == current[k]);
    }
}

/// Whatever a plan detaches is managed now.
pub proof fn detached_ports_are_managed(
    current: Map<Seq<char>, ManagedNeutronPortModel>,
    snapshot: NeutronSnapshotRequestModel,
    inventory: LocalInterfaceInventoryModel,
    scope: ScopeModel,
    i: int,
)
    requires
        current.dom().finite(),
        keyed_by_id(current),
        0 <= i < snapshot_plan(current, snapshot, inventory, scope).detach.len(),
    ensures
        ({
            let port = snapshot_plan(current, snapshot, inventory, scope).detach[i];
            current.dom().contains(port.port_id) && current[port.port_id] == port
        }),
{
    let n = snapshot.ports.len() as int;
    let sorted = sorted_ports(snapshot.ports, current, inventory, scope, n);
    let own = in_order::<String>(current.dom());
    lemma_in_order::<String>(current.dom());
    let q = lemma_chosen(
        own,
        |id: Seq<char>| must_detach(current, sorted, scope, id),
        |id: Seq<char>| current[id],
        i,
    );
    assert(current.dom().contains(q));
}

/// True when a port of a snapshot is passed over for a reason: it has no identity, it does not
/// resolve, or what it resolves to has no name.
pub open spec fn passed_over_for(
    port: NeutronPortSnapshotModel,
    inventory: LocalInterfaceInventoryModel,
    told: NeutronPortApplyResultModel,
) -> bool {
    let resolved = resolved_port(port, inventory);
    &&& told.port_id == port.port_id
    &&& told.action == "ignore"@
    &&& told.status == "ignored"@
    &&& if trimmed(port.port_id).len() == 0 {
        told.ifname == port.ifname && told.reason == Some("missing port_id"@)
    } else if !resolved.eligible {
        told.ifname == resolved.ifname && told.reason == resolved.disposition
    } else {
        trimmed(resolved.ifname).len() == 0 && told.reason == Some("missing ifname"@)
    }
}

proof fn lemma_passed_over(
    current: Map<Seq<char>, ManagedNeutronPortModel>,
    snapshot: NeutronSnapshotRequestModel,
    inventory: LocalInterfaceInventoryModel,
    scope: ScopeModel,
    n: int,
    i: int,
) -> (j: int)
    requires
        0 <= n <= snapshot.ports.len(),
        0 <= i < sorted_ports(snapshot.ports, current, inventory, scope, n).ignored.len(),
    ensures
        0 <= j < n,
        scope.holds(snapshot.ports[j].port_id),
        passed_over_for(
            snapshot.ports[j],
            inventory,
            sorted_ports(snapshot.ports, current, inventory, scope, n).ignored[i],
        ),
    decreases n,
{
    let before = sorted_ports(snapshot.ports, current, inventory, scope, n - 1);
    resolved_ports_are_plugged(snapshot.ports[n - 1], inventory);
    if i < before.ignored.len() {
        lemma_passed_over(current, snapshot, inventory, scope, n - 1, i)
    } else {
        n - 1
    }
}

proof fn lemma_told_passed_over(
    current: Map<Seq<char>, ManagedNeutronPortModel>,
    snapshot: NeutronSnapshotRequestModel,
    inventory: LocalInterfaceInventoryModel,
    scope: ScopeModel,
    n: int,
    j: int,
) -> (i: int)
    requires
        0 <= j < n <= snapshot.ports.len(),
        scope.holds(snapshot.ports[j].port_id),
        trimmed(snapshot.ports[j].port_id).len() == 0 || !resolved_port(
            snapshot.ports[j],
            inventory,
        ).eligible || trimmed(resolved_port(snapshot.ports[j], inventory).ifname).len() == 0,
    ensures
        0 <= i < sorted_ports(snapshot.ports, current, inventory, scope, n).ignored.len(),
        passed_over_for(
            snapshot.ports[j],
            inventory,
            sorted_ports(snapshot.ports, current, inventory, scope, n).ignored[i],
        ),
    decreases n,
{
    let before = sorted_ports(snapshot.ports, current, inventory, scope, n - 1);
    resolved_ports_are_plugged(snapshot.ports[n - 1], inventory);
    if j < n - 1 {
        lemma_told_passed_over(current, snapshot, inventory, scope, n - 1, j)
    } else {
        before.ignored.len() as int
    }
}

/// Exactly the ports of the scope that cannot be planned are passed over, each for the reason that
/// stands against it.
pub proof fn unfit_ports_are_passed_over(
    current: Map<Seq<char>, ManagedNeutronPortModel>,
    snapshot: NeutronSnapshotRequestModel,
    inventory: LocalInterfaceInventoryModel,
    scope: ScopeModel,
    i: int,
)
    ensures
        ({
            let told = snapshot_plan(current, snapshot, inventory, scope).ignored;
            &&& 0 <= i < told.len() ==> exists|j: int|
                0 <= j < snapshot.ports.len() && scope.holds((#[trigger] snapshot.ports[j]).port_id)
                    && passed_over_for(snapshot.ports[j], inventory, told[i])
            &&& 0 <= i < snapshot.ports.len() && scope.holds(snapshot.ports[i].port_id) && (trimmed(
                snapshot.ports[i].port_id,
            ).len() == 0 || !resolved_port(snapshot.ports[i], inventory).eligible || trimmed(
                resolved_port(snapshot.ports[i], inventory).ifname,
            ).len() == 0) ==> exists|k: int|
                0 <= k < told.len() && passed_over_for(
                    snapshot.ports[i],
                    inventory,
                    #[trigger] told[k],
                )
        }),
{
    let n = snapshot.ports.len() as int;
    let told = snapshot_plan(current, snapshot, inventory, scope).ignored;
    if 0 <= i < told.len() {
        let j = lemma_passed_over(current, snapshot, inventory, scope, n, i);
        assert(scope.holds(snapshot.ports[j].port_id));
    }
    if 0 <= i < snapshot.ports.len() && scope.holds(snapshot.ports[i].port_id) && (trimmed(
        snapshot.ports[i].port_id,
    ).len() == 0 || !resolved_port(snapshot.ports[i], inventory).eligible || trimmed(
        resolved_port(snapshot.ports[i], inventory).ifname,
    ).len() == 0) {
        let k = lemma_told_passed_over(current, snapshot, inventory, scope, n, i);
        assert(passed_over_for(snapshot.ports[i], inventory, told[k]));
    }
}

/// A port that does not resolve is told under the name of the interface that was found for it, or
/// else under its own name, or else under the name that is guessed for it.
pub proof fn unresolved_ports_are_told_by_name(
    port: NeutronPortSnapshotModel,
    inventory: LocalInterfaceInventoryModel,
)
    requires
        manageable(port),
        inventory.ovs_error is None,
    ensures
        ({
            let told = resolved_port(port, inventory);
            &&& forall|interface: LocalOvsInterfaceModel| #[trigger]
                found_for(port, inventory, interface) ==> told.ifname == interface.name
            &&& (forall|interface: LocalOvsInterfaceModel| !found_for(port, inventory, interface))
                ==> told.ifname == if trimmed(port.ifname).len() > 0 {
                trimmed(port.ifname)
            } else {
                tap_name(port.port_id)
            }
            &&& told.eligible ==> told.network_backend == Some("openvswitch"@)
        }),
{
    reveal_strlit("compute:");
    if inventory.by_iface_id.dom().contains(port.port_id) {
        assert(found_for(port, inventory, inventory.by_iface_id[port.port_id]));
    } else if trimmed(port.ifname).len() > 0 && inventory.by_name.dom().contains(
        trimmed(port.ifname),
    ) {
        assert(found_for(port, inventory, inventory.by_name[trimmed(port.ifname)]));
    }
}

proof fn lemma_waiting(
    current: Map<Seq<char>, ManagedNeutronPortModel>,
    snapshot: NeutronSnapshotRequestModel,
    inventory: LocalInterfaceInventoryModel,
    scope: ScopeModel,
    n: int,
)
    requires
        0 <= n <= snapshot.ports.len(),
        inventory.ovs_error is None,
        sorted_ports(snapshot.ports, current, inventory, scope, n).inventory_error is Some,
    ensures
        exists|k: Seq<char>| #[trigger]
            awaits_index(current, snapshot, inventory, k) && scope.holds(k) && sorted_ports(
                snapshot.ports,
                current,
                inventory,
                scope,
                n,
            ).inventory_error == Some("local_port_not_ready:"@ + k + ":"@ + "ifindex_not_ready"@),
    decreases n,
{
    if n > 0 {
        let before = sorted_ports(snapshot.ports, current, inventory, scope, n - 1);
        if before.inventory_error is Some {
            lemma_waiting(current, snapshot, inventory, scope, n - 1);
        } else {
            let k = snapshot.ports[n - 1].port_id;
            resolved_ports_are_plugged(snapshot.ports[n - 1], inventory);
            assert(awaits_index(current, snapshot, inventory, k));
        }
    }
}

/// A plan calls the inventory incomplete only where the switch could not be read, or a managed port
/// of the scope waits for its index, and then it names the port.
pub proof fn incomplete_inventories_have_a_cause(
    current: Map<Seq<char>, ManagedNeutronPortModel>,
    snapshot: NeutronSnapshotRequestModel,
    inventory: LocalInterfaceInventoryModel,
    scope: ScopeModel,
)
    requires
        inventory.ovs_error is None,
        snapshot_plan(current, snapshot, inventory, scope).inventory_error is Some,
    ensures
        exists|k: Seq<char>| #[trigger]
            awaits_index(current, snapshot, inventory, k) && scope.holds(k) && snapshot_plan(
                current,
                snapshot,
                inventory,
                scope,
            ).inventory_error == Some("local_port_not_ready:"@ + k + ":"@ + "ifindex_not_ready"@),
{
    lemma_waiting(current, snapshot, inventory, scope, snapshot.ports.len() as int);
}

} // verus!
