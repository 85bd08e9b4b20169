//! From a snapshot to a plan: which ports to attach, update, detach or ignore.

use crate::host::as_text;
use crate::inventory::{
    blank_or, compute_owner, guess_tap_name, is_compute_owner, is_normal_vnic, is_ovs_vif, lookup,
    tap_name, LocalInterfaceInventory, LocalInterfaceInventoryModel, LocalOvsInterface,
    LocalOvsInterfaceModel,
};
use crate::model::{
    ManagedNeutronPort, ManagedNeutronPortModel, NeutronPortApplyResult,
    NeutronPortApplyResultModel, NeutronPortSnapshot, NeutronPortSnapshotModel,
    NeutronSnapshotRequest, NeutronSnapshotRequestModel,
};
use crate::ordered::{in_order, lemma_filter_step, OrderedMap, Value};
use crate::scope::{ApplyScope, ScopeModel};
use crate::status::{port_result, transaction_result};
use crate::text::{text_eq, trim, trimmed};
use vstd::prelude::*;
use vstd::string::*;

verus! {

/// What a snapshot asks of the host.
#[derive(Debug, PartialEq, Eq)]
pub struct SnapshotPlan {
    pub attach: Vec<NeutronPortSnapshot>,
    pub update: Vec<NeutronPortSnapshot>,
    pub detach: Vec<ManagedNeutronPort>,
    pub ignored: Vec<NeutronPortApplyResult>,
    /// Why the plan cannot be carried out for now, if it cannot.
    pub inventory_error: Option<String>,
}

/// The model of [`SnapshotPlan`].
#[verifier::ext_equal]
pub struct SnapshotPlanModel {
    pub attach: Seq<NeutronPortSnapshotModel>,
    pub update: Seq<NeutronPortSnapshotModel>,
    pub detach: Seq<ManagedNeutronPortModel>,
    pub ignored: Seq<NeutronPortApplyResultModel>,
    pub inventory_error: Option<Seq<char>>,
}

impl DeepView for SnapshotPlan {
    type V = SnapshotPlanModel;

    open spec fn deep_view(&self) -> SnapshotPlanModel {
        SnapshotPlanModel {
            attach: self.attach.deep_view(),
            update: self.update.deep_view(),
            detach: self.detach.deep_view(),
            ignored: self.ignored.deep_view(),
            inventory_error: self.inventory_error.deep_view(),
        }
    }
}

impl Value for SnapshotPlan {
    fn duplicate(&self) -> (r: Self) {
        SnapshotPlan {
            attach: self.attach.duplicate(),
            update: self.update.duplicate(),
            detach: self.detach.duplicate(),
            ignored: self.ignored.duplicate(),
            inventory_error: self.inventory_error.duplicate(),
        }
    }

    fn same(&self, other: &Self) -> (r: bool) {
        self.attach.same(&other.attach)
            && self.update.same(&other.update)
            && self.detach.same(&other.detach)
            && self.ignored.same(&other.ignored)
            && self.inventory_error.same(&other.inventory_error)
    }
}

impl Clone for SnapshotPlan {
    fn clone(&self) -> (r: Self)
        ensures
            r.deep_view() == self.deep_view(),
    {
        self.duplicate()
    }
}

/// A plan with the scope it must not leave.
#[derive(Debug, PartialEq, Eq)]
pub struct SnapshotApplyTransaction {
    pub scope: ApplyScope,
    pub plan: SnapshotPlan,
    pub requested_port_ids: Vec<String>,
    pub affected_domains: Vec<String>,
    pub affected_ports: Vec<ManagedNeutronPort>,
}

/// The model of [`SnapshotApplyTransaction`].
#[verifier::ext_equal]
pub struct SnapshotApplyTransactionModel {
    pub scope: ScopeModel,
    pub plan: SnapshotPlanModel,
    pub requested_port_ids: Seq<Seq<char>>,
    pub affected_domains: Seq<Seq<char>>,
    pub affected_ports: Seq<ManagedNeutronPortModel>,
}

impl DeepView for SnapshotApplyTransaction {
    type V = SnapshotApplyTransactionModel;

    open spec fn deep_view(&self) -> SnapshotApplyTransactionModel {
        SnapshotApplyTransactionModel {
            scope: self.scope.deep_view(),
            plan: self.plan.deep_view(),
            requested_port_ids: self.requested_port_ids.deep_view(),
            affected_domains: self.affected_domains.deep_view(),
            affected_ports: self.affected_ports.deep_view(),
        }
    }
}

impl Value for SnapshotApplyTransaction {
    fn duplicate(&self) -> (r: Self) {
        SnapshotApplyTransaction {
            scope: self.scope.duplicate(),
            plan: self.plan.duplicate(),
            requested_port_ids: self.requested_port_ids.duplicate(),
            affected_domains: self.affected_domains.duplicate(),
            affected_ports: self.affected_ports.duplicate(),
        }
    }

    fn same(&self, other: &Self) -> (r: bool) {
        self.scope.same(&other.scope)
            && self.plan.same(&other.plan)
            && self.requested_port_ids.same(&other.requested_port_ids)
            && self.affected_domains.same(&other.affected_domains)
            && self.affected_ports.same(&other.affected_ports)
    }
}

impl Clone for SnapshotApplyTransaction {
    fn clone(&self) -> (r: Self)
        ensures
            r.deep_view() == self.deep_view(),
    {
        self.duplicate()
    }
}

/// A port that is left alone for a reason.
pub open spec fn ineligible(
    port: NeutronPortSnapshotModel,
    reason: Seq<char>,
) -> NeutronPortSnapshotModel {
    NeutronPortSnapshotModel {
        eligible: false,
        disposition: Some(reason),
        managed_domains: Seq::empty(),
        ..port
    }
}

/// Marks a port as left alone for a reason.
pub fn ineligible_port(port: &NeutronPortSnapshot, reason: String) -> (r: NeutronPortSnapshot)
    ensures
        r.deep_view() == ineligible(port.deep_view(), reason@),
{
    let mut resolved = port.duplicate();
    resolved.eligible = false;
    resolved.disposition = Some(reason);
    resolved.managed_domains = Vec::new();
    assert(resolved.managed_domains.deep_view() =~= Seq::<Seq<char>>::empty());
    assert(resolved.deep_view() =~= ineligible(port.deep_view(), reason@));
    resolved
}

/// An optional text, or the empty text.
pub open spec fn text_or_empty(text: Option<Seq<char>>) -> Seq<char> {
    match text {
        Some(t) => t,
        None => Seq::empty(),
    }
}

/// Why a port is not one for this host to look for, if it is not.
pub open spec fn kind_fault(port: NeutronPortSnapshotModel) -> Option<Seq<char>> {
    if !port.eligible {
        Some(
            match port.disposition {
                Some(reason) => reason,
                None => "not eligible"@,
            },
        )
    } else if !compute_owner(port.device_owner) {
        Some("not_applicable_device_owner:"@ + text_or_empty(port.device_owner))
    } else if !blank_or(port.vif_type, "ovs"@) {
        Some("unsupported_vif_type:"@ + text_or_empty(port.vif_type))
    } else if !blank_or(port.vnic_type, "normal"@) {
        Some("unsupported_vnic_type:"@ + text_or_empty(port.vnic_type))
    } else {
        None
    }
}

/// The interface of a port: the one bound to it, else the one it names.
pub open spec fn port_interface(
    port: NeutronPortSnapshotModel,
    inventory: LocalInterfaceInventoryModel,
) -> Option<LocalOvsInterfaceModel> {
    match lookup(inventory.by_iface_id, port.port_id) {
        Some(interface) => Some(interface),
        None => if trimmed(port.ifname).len() > 0 {
            lookup(inventory.by_name, trimmed(port.ifname))
        } else {
            None
        },
    }
}

/// A port with the name and binding of an interface.
pub open spec fn named_after(
    port: NeutronPortSnapshotModel,
    interface: LocalOvsInterfaceModel,
) -> NeutronPortSnapshotModel {
    NeutronPortSnapshotModel {
        ifname: interface.name,
        ovs_iface_id: interface.iface_id,
        ..port
    }
}

/// The index of an interface, read again where the inventory lacks it.
pub open spec fn interface_index(
    interface: LocalOvsInterfaceModel,
    ifindexes: Map<Seq<char>, u32>,
) -> Option<u32> {
    match interface.ifindex {
        Some(index) => Some(index),
        None => lookup(ifindexes, interface.name),
    }
}

/// A port matched with the interfaces of the host.
pub open spec fn resolved_port(
    port: NeutronPortSnapshotModel,
    inventory: LocalInterfaceInventoryModel,
) -> NeutronPortSnapshotModel {
    match kind_fault(port) {
        Some(reason) => ineligible(port, reason),
        None => match inventory.ovs_error {
            Some(error) => ineligible(port, "ovsdb_unavailable:"@ + error),
            None => match port_interface(port, inventory) {
                None => ineligible(
                    NeutronPortSnapshotModel {
                        ifname: if trimmed(port.ifname).len() == 0 {
                            tap_name(port.port_id)
                        } else {
                            trimmed(port.ifname)
                        },
                        ..port
                    },
                    "ovs_iface_id_not_found"@,
                ),
                Some(interface) => if interface.bridge != Some(inventory.ovs_bridge) {
                    ineligible(
                        named_after(port, interface),
                        "not_on_ovs_bridge:"@ + inventory.ovs_bridge,
                    )
                } else if interface.iface_id != Some(port.port_id) {
                    ineligible(named_after(port, interface), "ovs_iface_id_mismatch"@)
                } else if interface_index(interface, inventory.ifindexes) is None {
                    ineligible(named_after(port, interface), "ifindex_not_ready"@)
                } else {
                    NeutronPortSnapshotModel {
                        ifindex: interface_index(interface, inventory.ifindexes),
                        eligible: true,
                        disposition: Some("eligible_ovs_tap"@),
                        network_backend: Some("openvswitch"@),
                        ..named_after(port, interface)
                    }
                },
            },
        },
    }
}

fn reason_with(head: &str, text: &Option<String>) -> (r: String)
    ensures
        r@ == head@ + text_or_empty(text.deep_view()),
{
    let mut r = head.to_owned();
    if let Some(t) = text {
        r.append(t.as_str());
    }
    assert(r@ =~= head@ + text_or_empty(text.deep_view()));
    r
}

fn check_kind(port: &NeutronPortSnapshot) -> (r: Option<String>)
    ensures
        r.deep_view() == kind_fault(port.deep_view()),
{
    if !port.eligible {
        return Some(
            match &port.disposition {
                Some(reason) => reason.duplicate(),
                None => "not eligible".to_owned(),
            },
        );
    }
    if !is_compute_owner(as_text(&port.device_owner)) {
        return Some(reason_with("not_applicable_device_owner:", &port.device_owner));
    }
    if !is_ovs_vif(as_text(&port.vif_type)) {
        return Some(reason_with("unsupported_vif_type:", &port.vif_type));
    }
    if !is_normal_vnic(as_text(&port.vnic_type)) {
        return Some(reason_with("unsupported_vnic_type:", &port.vnic_type));
    }
    None
}

fn find_interface<'a>(port: &NeutronPortSnapshot, inventory: &'a LocalInterfaceInventory) -> (r:
    Option<&'a LocalOvsInterface>)
    ensures
        r.deep_view() == port_interface(port.deep_view(), inventory.deep_view()),
{
    if let Some(interface) = inventory.by_iface_id.get(&port.port_id) {
        return Some(interface);
    }
    let requested = trim(port.ifname.as_str());
    if requested.is_empty() {
        None
    } else {
        inventory.by_name.get_text(requested)
    }
}

fn name_after(port: &NeutronPortSnapshot, interface: &LocalOvsInterface) -> (r: NeutronPortSnapshot)
    ensures
        r.deep_view() == named_after(port.deep_view(), interface.deep_view()),
{
    let mut named = port.duplicate();
    named.ifname = interface.name.duplicate();
    named.ovs_iface_id = interface.iface_id.duplicate();
    assert(named.deep_view() =~= named_after(port.deep_view(), interface.deep_view()));
    named
}

/// Matches a port with the interfaces of the host.
pub fn resolve_local_neutron_port(
    port: &NeutronPortSnapshot,
    inventory: &LocalInterfaceInventory,
) -> (r: NeutronPortSnapshot)
    ensures
        r.deep_view() == resolved_port(port.deep_view(), inventory.deep_view()),
{
    if let Some(reason) = check_kind(port) {
        return ineligible_port(port, reason);
    }
    if let Some(error) = &inventory.ovs_error {
        let mut reason = "ovsdb_unavailable:".to_owned();
        reason.append(error.as_str());
        return ineligible_port(port, reason);
    }
    let interface = match find_interface(port, inventory) {
        Some(interface) => interface,
        None => {
            let requested = trim(port.ifname.as_str());
            let guessed = if requested.is_empty() {
                guess_tap_name(port.port_id.as_str())
            } else {
                requested.to_owned()
            };
            let mut missing = port.duplicate();
            missing.ifname = guessed;
            return ineligible_port(&missing, "ovs_iface_id_not_found".to_owned());
        },
    };
    let on_bridge = match &interface.bridge {
        Some(bridge) => bridge.same(&inventory.ovs_bridge),
        None => false,
    };
    if !on_bridge {
        let mut reason = "not_on_ovs_bridge:".to_owned();
        reason.append(inventory.ovs_bridge.as_str());
        return ineligible_port(&name_after(port, interface), reason);
    }
    let bound = match &interface.iface_id {
        Some(id) => id.same(&port.port_id),
        None => false,
    };
    if !bound {
        return ineligible_port(&name_after(port, interface), "ovs_iface_id_mismatch".to_owned());
    }
    let ifindex = match interface.ifindex {
        Some(index) => Some(index),
        None => match inventory.ifindexes.get(&interface.name) {
            Some(index) => Some(*index),
            None => None,
        },
    };
    let mut resolved = name_after(port, interface);
    if ifindex.is_none() {
        return ineligible_port(&resolved, "ifindex_not_ready".to_owned());
    }
    resolved.ifindex = ifindex;
    resolved.eligible = true;
    resolved.disposition = Some("eligible_ovs_tap".to_owned());
    resolved.network_backend = Some("openvswitch".to_owned());
    assert(resolved.deep_view() =~= resolved_port(port.deep_view(), inventory.deep_view()));
    resolved
}

/// True when two bindings are to the same interface, as far as both tell its index.
pub open spec fn binding_same(
    a_name: Seq<char>,
    a_index: Option<u32>,
    b_name: Seq<char>,
    b_index: Option<u32>,
) -> bool {
    a_name == b_name && (match (a_index, b_index) {
        (Some(a), Some(b)) => a == b,
        _ => true,
    })
}

/// Whether a managed port is bound as a snapshot wants it.
pub fn managed_binding_matches(managed: &ManagedNeutronPort, port: &NeutronPortSnapshot) -> (r: bool)
    ensures
        r == binding_same(
            managed.deep_view().ifname,
            managed.ifindex,
            port.deep_view().ifname,
            port.ifindex,
        ),
{
    if !managed.ifname.same(&port.ifname) {
        return false;
    }
    match (managed.ifindex, port.ifindex) {
        (Some(a), Some(b)) => a == b,
        _ => true,
    }
}

/// Whether two managed ports are bound to the same interface.
pub fn managed_runtime_binding_matches(
    current: &ManagedNeutronPort,
    desired: &ManagedNeutronPort,
) -> (r: bool)
    ensures
        r == binding_same(
            current.deep_view().ifname,
            current.ifindex,
            desired.deep_view().ifname,
            desired.ifindex,
        ),
{
    if !current.ifname.same(&desired.ifname) {
        return false;
    }
    match (current.ifindex, desired.ifindex) {
        (Some(a), Some(b)) => a == b,
        _ => true,
    }
}

/// The ports of a snapshot sorted into those wanted and those ignored.
#[verifier::ext_equal]
pub struct SortedPorts {
    pub desired: Map<Seq<char>, NeutronPortSnapshotModel>,
    pub ignored: Seq<NeutronPortApplyResultModel>,
    pub deferred: Set<Seq<char>>,
    pub inventory_error: Option<Seq<char>>,
    pub target_seen: bool,
}

/// The record of an ignored port.
pub open spec fn ignored_result(
    port_id: Seq<char>,
    ifname: Seq<char>,
    reason: Seq<char>,
) -> NeutronPortApplyResultModel {
    port_result(port_id, ifname, "ignore"@, "ignored"@, Some(reason))
}

/// The reason why a resolved port is left alone.
pub open spec fn disposition_of(port: NeutronPortSnapshotModel) -> Seq<char> {
    match port.disposition {
        Some(reason) => reason,
        None => "not eligible"@,
    }
}

/// True when a managed port only waits for its interface to get an index.
pub open spec fn waits_for_index(
    current: Map<Seq<char>, ManagedNeutronPortModel>,
    resolved: NeutronPortSnapshotModel,
) -> bool {
    &&& disposition_of(resolved) == "ifindex_not_ready"@
    &&& current.dom().contains(resolved.port_id)
    &&& current[resolved.port_id].ifname == resolved.ifname
}

/// The error text for a managed port that waits for its interface.
pub open spec fn not_ready_text(resolved: NeutronPortSnapshotModel) -> Seq<char> {
    "local_port_not_ready:"@ + resolved.port_id + ":"@ + disposition_of(resolved)
}

/// Sorts one more port.
pub open spec fn sort_port(
    before: SortedPorts,
    port: NeutronPortSnapshotModel,
    current: Map<Seq<char>, ManagedNeutronPortModel>,
    inventory: LocalInterfaceInventoryModel,
    scope: ScopeModel,
) -> SortedPorts {
    if !scope.holds(port.port_id) {
        before
    } else {
        let seen = SortedPorts {
            target_seen: before.target_seen || scope is SinglePort,
            ..before
        };
        if trimmed(port.port_id).len() == 0 {
            SortedPorts {
                ignored: seen.ignored.push(
                    ignored_result(port.port_id, port.ifname, "missing port_id"@),
                ),
                ..seen
            }
        } else {
            let resolved = resolved_port(port, inventory);
            if !resolved.eligible {
                let waits = waits_for_index(current, resolved);
                SortedPorts {
                    ignored: seen.ignored.push(
                        ignored_result(
                            resolved.port_id,
                            resolved.ifname,
                            disposition_of(resolved),
                        ),
                    ),
                    deferred: if waits {
                        seen.deferred.insert(resolved.port_id)
                    } else {
                        seen.deferred
                    },
                    inventory_error: if waits && seen.inventory_error is None {
                        Some(not_ready_text(resolved))
                    } else {
                        seen.inventory_error
                    },
                    ..seen
                }
            } else if trimmed(resolved.ifname).len() == 0 {
                SortedPorts {
                    ignored: seen.ignored.push(
                        ignored_result(resolved.port_id, resolved.ifname, "missing ifname"@),
                    ),
                    ..seen
                }
            } else {
                SortedPorts {
                    desired: seen.desired.insert(resolved.port_id, resolved),
                    ..seen
                }
            }
        }
    }
}

/// The first `n` ports of a snapshot sorted.
pub open spec fn sorted_ports(
    ports: Seq<NeutronPortSnapshotModel>,
    current: Map<Seq<char>, ManagedNeutronPortModel>,
    inventory: LocalInterfaceInventoryModel,
    scope: ScopeModel,
    n: int,
) -> SortedPorts
    decreases n,
{
    if n <= 0 {
        SortedPorts {
            desired: Map::empty(),
            ignored: Seq::empty(),
            deferred: Set::empty(),
            inventory_error: match inventory.ovs_error {
                Some(error) => Some("ovsdb_unavailable:"@ + error),
                None => None,
            },
            target_seen: false,
        }
    } else {
        sort_port(
            sorted_ports(ports, current, inventory, scope, n - 1),
            ports[n - 1],
            current,
            inventory,
            scope,
        )
    }
}

/// True when a wanted port is already managed with the binding it wants.
pub open spec fn stays_bound(
    current: Map<Seq<char>, ManagedNeutronPortModel>,
    desired: Map<Seq<char>, NeutronPortSnapshotModel>,
    port_id: Seq<char>,
) -> bool {
    &&& current.dom().contains(port_id)
    &&& desired.dom().contains(port_id)
    &&& binding_same(
        current[port_id].ifname,
        current[port_id].ifindex,
        desired[port_id].ifname,
        desired[port_id].ifindex,
    )
}

/// True when a managed port has to be detached.
pub open spec fn must_detach(
    current: Map<Seq<char>, ManagedNeutronPortModel>,
    sorted: SortedPorts,
    scope: ScopeModel,
    port_id: Seq<char>,
) -> bool {
    &&& scope.holds(port_id)
    &&& (scope is SinglePort ==> sorted.target_seen)
    &&& !sorted.deferred.contains(port_id)
    &&& !stays_bound(current, sorted.desired, port_id)
}

/// The plan of a snapshot within a scope.
pub open spec fn snapshot_plan(
    current: Map<Seq<char>, ManagedNeutronPortModel>,
    snapshot: NeutronSnapshotRequestModel,
    inventory: LocalInterfaceInventoryModel,
    scope: ScopeModel,
) -> SnapshotPlanModel {
    let sorted = sorted_ports(
        snapshot.ports,
        current,
        inventory,
        scope,
        snapshot.ports.len() as int,
    );
    let wanted = in_order::<String>(sorted.desired.dom());
    SnapshotPlanModel {
        attach: wanted.filter(|id: Seq<char>| !stays_bound(current, sorted.desired, id)).map_values(
            |id: Seq<char>| sorted.desired[id],
        ),
        update: wanted.filter(|id: Seq<char>| stays_bound(current, sorted.desired, id)).map_values(
            |id: Seq<char>| sorted.desired[id],
        ),
        detach: if inventory.ovs_error is None {
            in_order::<String>(current.dom()).filter(
                |id: Seq<char>| must_detach(current, sorted, scope, id),
            ).map_values(|id: Seq<char>| current[id])
        } else {
            Seq::empty()
        },
        ignored: sorted.ignored,
        inventory_error: sorted.inventory_error,
    }
}

/// The ports of a snapshot as they are sorted.
struct PortSorter {
    desired: OrderedMap<String, NeutronPortSnapshot>,
    ignored: Vec<NeutronPortApplyResult>,
    deferred: OrderedMap<String, bool>,
    inventory_error: Option<String>,
    target_seen: bool,
}

impl PortSorter {
    spec fn model(&self) -> SortedPorts {
        SortedPorts {
            desired: self.desired.deep_view(),
            ignored: self.ignored.deep_view(),
            deferred: self.deferred.deep_view().dom(),
            inventory_error: self.inventory_error.deep_view(),
            target_seen: self.target_seen,
        }
    }

    fn ignore(&mut self, port_id: &str, ifname: &str, reason: &str)
        ensures
            final(self).model() == (SortedPorts {
                ignored: old(self).model().ignored.push(
                    ignored_result(port_id@, ifname@, reason@),
                ),
                ..old(self).model()
            }),
    {
        let ghost before = self.ignored.deep_view();
        let result = transaction_result(port_id, ifname, "ignore", "ignored", Some(reason));
        self.ignored.push(result);
        assert(self.ignored.deep_view() =~= before.push(result.deep_view()));
    }

    fn sort(
        &mut self,
        port: &NeutronPortSnapshot,
        current: &OrderedMap<String, ManagedNeutronPort>,
        inventory: &LocalInterfaceInventory,
        scope: &ApplyScope,
    )
        ensures
            final(self).model() == sort_port(
                old(self).model(),
                port.deep_view(),
                current.deep_view(),
                inventory.deep_view(),
                scope.deep_view(),
            ),
    {
        if !scope.holds(port.port_id.as_str()) {
            return ;
        }
        if let ApplyScope::SinglePort(_) = scope {
            self.target_seen = true;
        }
        if trim(port.port_id.as_str()).is_empty() {
            self.ignore(port.port_id.as_str(), port.ifname.as_str(), "missing port_id");
            return ;
        }
        let resolved = resolve_local_neutron_port(port, inventory);
        if !resolved.eligible {
            let disposition = match &resolved.disposition {
                Some(reason) => reason.duplicate(),
                None => "not eligible".to_owned(),
            };
            let waits = text_eq(disposition.as_str(), "ifindex_not_ready") && match current.get(
                &resolved.port_id,
            ) {
                Some(managed) => managed.ifname.same(&resolved.ifname),
                None => false,
            };
            assert(waits == waits_for_index(current.deep_view(), resolved.deep_view()));
            if waits {
                self.deferred.insert(resolved.port_id.duplicate(), true);
                if self.inventory_error.is_none() {
                    let mut error = "local_port_not_ready:".to_owned();
                    error.append(resolved.port_id.as_str());
                    error.append(":");
                    error.append(disposition.as_str());
                    self.inventory_error = Some(error);
                }
            }
            assert(self.deferred.deep_view().dom() =~= if waits {
                old(self).model().deferred.insert(resolved.deep_view().port_id)
            } else {
                old(self).model().deferred
            });
            self.ignore(
                resolved.port_id.as_str(),
                resolved.ifname.as_str(),
                disposition.as_str(),
            );
            return ;
        }
        if trim(resolved.ifname.as_str()).is_empty() {
            self.ignore(resolved.port_id.as_str(), resolved.ifname.as_str(), "missing ifname");
            return ;
        }
        self.desired.insert(resolved.port_id.duplicate(), resolved);
    }
}

fn port_stays_bound(
    current: &OrderedMap<String, ManagedNeutronPort>,
    desired: &OrderedMap<String, NeutronPortSnapshot>,
    port_id: &String,
) -> (r: bool)
    ensures
        r == stays_bound(current.deep_view(), desired.deep_view(), port_id@),
{
    match (current.get(port_id), desired.get(port_id)) {
        (Some(managed), Some(port)) => managed_binding_matches(managed, port),
        _ => false,
    }
}

fn ports_to_detach(
    current: &OrderedMap<String, ManagedNeutronPort>,
    sorter: &PortSorter,
    scope: &ApplyScope,
) -> (r: Vec<ManagedNeutronPort>)
    ensures
        r.deep_view() == in_order::<String>(current.deep_view().dom()).filter(
            |id: Seq<char>|
                must_detach(current.deep_view(), sorter.model(), scope.deep_view(), id),
        ).map_values(|id: Seq<char>| current.deep_view()[id]),
{
    let ghost keys = in_order::<String>(current.deep_view().dom());
    let ghost p = |id: Seq<char>|
        must_detach(current.deep_view(), sorter.model(), scope.deep_view(), id);
    let ghost f = |id: Seq<char>| current.deep_view()[id];
    let mut r: Vec<ManagedNeutronPort> = Vec::new();
    let n: usize = current.len();
    let mut i: usize = 0;
    assert(keys.take(0).filter(p) =~= Seq::empty()) by {
        reveal(Seq::filter);
    }
    assert(r.deep_view() =~= keys.take(0).filter(p).map_values(f));
    while i < n
        invariant
            i <= n,
            n == keys.len(),
            keys == in_order::<String>(current.deep_view().dom()),
            p == (|id: Seq<char>|
                must_detach(current.deep_view(), sorter.model(), scope.deep_view(), id)),
            f == (|id: Seq<char>| current.deep_view()[id]),
            r.deep_view() == keys.take(i as int).filter(p).map_values(f),
        decreases n - i,
    {
        proof {
            lemma_filter_step(keys, p, i as int);
        }
        let port_id = current.key_at(i);
        let seen = match scope {
            ApplyScope::FullHost => true,
            ApplyScope::SinglePort(_) => sorter.target_seen,
        };
        if scope.holds(port_id.as_str()) && seen && !sorter.deferred.contains_key(port_id)
            && !port_stays_bound(current, &sorter.desired, port_id) {
            let ghost before = r.deep_view();
            let managed = current.value_at(i).duplicate();
            r.push(managed);
            proof {
                assert(p(keys[i as int]));
                assert(r.deep_view() =~= before.push(managed.deep_view()));
                assert(keys.take(i + 1).filter(p).map_values(f) =~= before.push(
                    f(keys[i as int]),
                ));
            }
        } else {
            assert(!p(keys[i as int]));
        }
        i += 1;
    }
    assert(keys.take(i as int) =~= keys);
    r
}

fn ports_wanted(
    current: &OrderedMap<String, ManagedNeutronPort>,
    desired: &OrderedMap<String, NeutronPortSnapshot>,
    bound: bool,
) -> (r: Vec<NeutronPortSnapshot>)
    ensures
        r.deep_view() == in_order::<String>(desired.deep_view().dom()).filter(
            |id: Seq<char>| stays_bound(current.deep_view(), desired.deep_view(), id) == bound,
        ).map_values(|id: Seq<char>| desired.deep_view()[id]),
{
    let ghost keys = in_order::<String>(desired.deep_view().dom());
    let ghost p = |id: Seq<char>|
        stays_bound(current.deep_view(), desired.deep_view(), id) == bound;
    let ghost f = |id: Seq<char>| desired.deep_view()[id];
    let mut r: Vec<NeutronPortSnapshot> = Vec::new();
    let n: usize = desired.len();
    let mut i: usize = 0;
    assert(keys.take(0).filter(p) =~= Seq::empty()) by {
        reveal(Seq::filter);
    }
    assert(r.deep_view() =~= keys.take(0).filter(p).map_values(f));
    while i < n
        invariant
            i <= n,
            n == keys.len(),
            keys == in_order::<String>(desired.deep_view().dom()),
            p == (|id: Seq<char>|
                stays_bound(current.deep_view(), desired.deep_view(), id) == bound),
            f == (|id: Seq<char>| desired.deep_view()[id]),
            r.deep_view() == keys.take(i as int).filter(p).map_values(f),
        decreases n - i,
    {
        proof {
            lemma_filter_step(keys, p, i as int);
        }
        if port_stays_bound(current, desired, desired.key_at(i)) == bound {
            let ghost before = r.deep_view();
            let port = desired.value_at(i).duplicate();
            r.push(port);
            proof {
                assert(p(keys[i as int]));
                assert(r.deep_view() =~= before.push(port.deep_view()));
                assert(keys.take(i + 1).filter(p).map_values(f) =~= before.push(
                    f(keys[i as int]),
                ));
            }
        } else {
            assert(!p(keys[i as int]));
        }
        i += 1;
    }
    assert(keys.take(i as int) =~= keys);
    r
}

/// Plans a snapshot within a scope.
pub fn build_snapshot_plan_for_scope(
    current: &OrderedMap<String, ManagedNeutronPort>,
    snapshot: &NeutronSnapshotRequest,
    inventory: &LocalInterfaceInventory,
    scope: &ApplyScope,
) -> (r: SnapshotPlan)
    ensures
        r.deep_view() == snapshot_plan(
            current.deep_view(),
            snapshot.deep_view(),
            inventory.deep_view(),
            scope.deep_view(),
        ),
{
    let ghost ports = snapshot.ports.deep_view();
    let mut sorter = PortSorter {
        desired: OrderedMap::new(),
        ignored: Vec::new(),
        deferred: OrderedMap::new(),
        inventory_error: match &inventory.ovs_error {
            Some(error) => {
                let mut text = "ovsdb_unavailable:".to_owned();
                text.append(error.as_str());
                Some(text)
            },
            None => None,
        },
        target_seen: false,
    };
    let mut i: usize = 0;
    assert(sorter.ignored.deep_view() =~= Seq::<NeutronPortApplyResultModel>::empty());
    assert(sorter.deferred.deep_view().dom() =~= Set::<Seq<char>>::empty());
    while i < snapshot.ports.len()
        invariant
            i <= snapshot.ports.len(),
            ports == snapshot.ports.deep_view(),
            sorter.model() == sorted_ports(
                ports,
                current.deep_view(),
                inventory.deep_view(),
                scope.deep_view(),
                i as int,
            ),
        decreases snapshot.ports.len() - i,
    {
        assert(ports[i as int] == snapshot.ports@[i as int].deep_view());
        sorter.sort(&snapshot.ports[i], current, inventory, scope);
        i += 1;
    }
    let detach = if inventory.is_authoritative() {
        ports_to_detach(current, &sorter, scope)
    } else {
        Vec::new()
    };
    let attach = ports_wanted(current, &sorter.desired, false);
    let update = ports_wanted(current, &sorter.desired, true);
    proof {
        let sorted = sorter.model();
        let wanted = in_order::<String>(sorted.desired.dom());
        let p = |id: Seq<char>|
            stays_bound(current.deep_view(), sorted.desired, id) == false;
        let q = |id: Seq<char>| !stays_bound(current.deep_view(), sorted.desired, id);
        assert(p =~= q);
        let s = |id: Seq<char>| stays_bound(current.deep_view(), sorted.desired, id) == true;
        let t = |id: Seq<char>| stays_bound(current.deep_view(), sorted.desired, id);
        assert(s =~= t);
        assert(inventory.deep_view().ovs_error is Some ==> detach.deep_view() =~= Seq::empty());
    }
    SnapshotPlan {
        attach,
        update,
        detach,
        ignored: sorter.ignored,
        inventory_error: sorter.inventory_error,
    }
}

/// Plans a snapshot of the whole host.
pub fn build_snapshot_plan(
    current: &OrderedMap<String, ManagedNeutronPort>,
    snapshot: &NeutronSnapshotRequest,
    inventory: &LocalInterfaceInventory,
) -> (r: SnapshotPlan)
    ensures
        r.deep_view() == snapshot_plan(
            current.deep_view(),
            snapshot.deep_view(),
            inventory.deep_view(),
            ScopeModel::FullHost,
        ),
{
    build_snapshot_plan_for_scope(current, snapshot, inventory, &ApplyScope::FullHost)
}

} // verus!
