//! From a plan to a transaction, and the answers that need none.

use crate::domains::{
    affected_domains, affected_domains_for_ports, domains_manage_acl, managed_port,
    managed_port_from_snapshot, manages_acl, normal_domains, normalize_managed_domains,
    ordered_texts, port_manages_acl,
};
use crate::inventory::{LocalInterfaceInventory, LocalInterfaceInventoryModel};
use crate::model::{
    ManagedNeutronPort, ManagedNeutronPortModel, NeutronDomainStatus, NeutronDomainStatusModel,
    NeutronPortApplyResultModel, NeutronPortSnapshot, NeutronPortSnapshotModel, NeutronPortStatus,
    NeutronPortStatusModel, NeutronRuntimeState, NeutronRuntimeStateModel, NeutronSnapshotRequest,
    NeutronSnapshotRequestModel, NeutronSnapshotResponse, NeutronSnapshotResponseModel,
    PendingNeutronIntent, PendingNeutronIntentModel,
};
use crate::ordered::{in_order, result_view, values_in_order, OrderedMap, Value};
use crate::plan::{
    binding_same, build_snapshot_plan_for_scope, managed_runtime_binding_matches, snapshot_plan,
    SnapshotApplyTransaction, SnapshotApplyTransactionModel, SnapshotPlan, SnapshotPlanModel,
};
use crate::scope::{
    conflict, refusal, scope_fault, validate_snapshot_scope, ApplyScope, ReplyStatus,
    ScopeErrorModel, ScopeModel, SnapshotApplyError, SnapshotApplyErrorModel, SnapshotScopeError,
};
use crate::status::{hashes_match, neutron_snapshot_response, port_result, transaction_result};
use crate::text::{decimal, lowered, text_eq, text_eq_ignore_case, u64_text};
use vstd::prelude::*;
use vstd::string::*;

verus! {

/// A map with the first `n` ports put in, each under its own identity.
pub open spec fn with_ports(
    base: Map<Seq<char>, ManagedNeutronPortModel>,
    ports: Seq<ManagedNeutronPortModel>,
    n: int,
) -> Map<Seq<char>, ManagedNeutronPortModel>
    decreases n,
{
    if n <= 0 {
        base
    } else {
        with_ports(base, ports, n - 1).insert(ports[n - 1].port_id, ports[n - 1])
    }
}

/// The managed ports that snapshots of ports ask for.
pub open spec fn managed_ports(ports: Seq<NeutronPortSnapshotModel>) -> Seq<
    ManagedNeutronPortModel,
> {
    ports.map_values(|port: NeutronPortSnapshotModel| managed_port(port))
}

/// The ports that a plan touches, by identity: as they will be where they stay.
pub open spec fn plan_ports(plan: SnapshotPlanModel) -> Map<Seq<char>, ManagedNeutronPortModel> {
    let update = managed_ports(plan.update);
    let attach = managed_ports(plan.attach);
    with_ports(
        with_ports(
            with_ports(Map::empty(), plan.detach, plan.detach.len() as int),
            update,
            update.len() as int,
        ),
        attach,
        attach.len() as int,
    )
}

fn put_managed(map: &mut OrderedMap<String, ManagedNeutronPort>, ports: &Vec<ManagedNeutronPort>)
    ensures
        final(map).deep_view() == with_ports(
            old(map).deep_view(),
            ports.deep_view(),
            ports.deep_view().len() as int,
        ),
{
    let ghost base = map.deep_view();
    let ghost models = ports.deep_view();
    let mut i: usize = 0;
    while i < ports.len()
        invariant
            i <= ports.len(),
            models == ports.deep_view(),
            map.deep_view() == with_ports(base, models, i as int),
        decreases ports.len() - i,
    {
        assert(models[i as int] == ports@[i as int].deep_view());
        map.insert(ports[i].port_id.duplicate(), ports[i].duplicate());
        i += 1;
    }
}

fn put_wanted(map: &mut OrderedMap<String, ManagedNeutronPort>, ports: &Vec<NeutronPortSnapshot>)
    ensures
        final(map).deep_view() == with_ports(
            old(map).deep_view(),
            managed_ports(ports.deep_view()),
            ports.deep_view().len() as int,
        ),
{
    let ghost base = map.deep_view();
    let ghost models = managed_ports(ports.deep_view());
    let mut i: usize = 0;
    while i < ports.len()
        invariant
            i <= ports.len(),
            models == managed_ports(ports.deep_view()),
            map.deep_view() == with_ports(base, models, i as int),
        decreases ports.len() - i,
    {
        assert(models[i as int] == managed_port(ports@[i as int].deep_view()));
        let managed = managed_port_from_snapshot(&ports[i]);
        map.insert(managed.port_id.duplicate(), managed);
        i += 1;
    }
}

/// Lists the ports that a plan touches.
pub fn affected_ports_for_plan(plan: &SnapshotPlan) -> (r: Vec<ManagedNeutronPort>)
    ensures
        r.deep_view() == values_in_order::<String, ManagedNeutronPortModel>(
            plan_ports(plan.deep_view()),
        ),
{
    let mut ports: OrderedMap<String, ManagedNeutronPort> = OrderedMap::new();
    put_managed(&mut ports, &plan.detach);
    put_wanted(&mut ports, &plan.update);
    put_wanted(&mut ports, &plan.attach);
    ports.values()
}

/// A port of which only the identity and the domains are known.
pub open spec fn bare_port(port_id: Seq<char>, domains: Seq<Seq<char>>) -> ManagedNeutronPortModel {
    ManagedNeutronPortModel {
        port_id,
        ifname: Seq::empty(),
        ifindex: None,
        managed_domains: domains,
        domain_desired_hashes: Map::empty(),
    }
}

/// The ports of an intent after its first `n` named identities.
pub open spec fn intent_ports(
    intent: PendingNeutronIntentModel,
    current: Map<Seq<char>, ManagedNeutronPortModel>,
    n: int,
) -> Map<Seq<char>, ManagedNeutronPortModel>
    decreases n,
{
    if n <= 0 {
        with_ports(Map::empty(), intent.affected_ports, intent.affected_ports.len() as int)
    } else {
        let before = intent_ports(intent, current, n - 1);
        let port_id = intent.port_ids[n - 1];
        if before.dom().contains(port_id) {
            before
        } else if current.dom().contains(port_id) {
            before.insert(port_id, current[port_id])
        } else {
            before.insert(port_id, bare_port(port_id, intent.affected_domains))
        }
    }
}

/// The ports that an intent touches, in order.
pub open spec fn ports_of_intent(
    intent: PendingNeutronIntentModel,
    current: Map<Seq<char>, ManagedNeutronPortModel>,
) -> Seq<ManagedNeutronPortModel> {
    values_in_order::<String, ManagedNeutronPortModel>(
        intent_ports(intent, current, intent.port_ids.len() as int),
    )
}

/// Lists the ports that an intent touches.
pub fn affected_ports_for_intent(
    intent: &PendingNeutronIntent,
    current_ports: &OrderedMap<String, ManagedNeutronPort>,
) -> (r: Vec<ManagedNeutronPort>)
    ensures
        r.deep_view() == ports_of_intent(intent.deep_view(), current_ports.deep_view()),
{
    let ghost model = intent.deep_view();
    let mut ports: OrderedMap<String, ManagedNeutronPort> = OrderedMap::new();
    put_managed(&mut ports, &intent.affected_ports);
    let mut i: usize = 0;
    while i < intent.port_ids.len()
        invariant
            i <= intent.port_ids.len(),
            model == intent.deep_view(),
            ports.deep_view() == intent_ports(model, current_ports.deep_view(), i as int),
        decreases intent.port_ids.len() - i,
    {
        let port_id = &intent.port_ids[i];
        assert(model.port_ids[i as int] == port_id@);
        if !ports.contains_key(port_id) {
            match current_ports.get(port_id) {
                Some(port) => {
                    ports.insert(port_id.duplicate(), port.duplicate());
                },
                None => {
                    let bare = ManagedNeutronPort {
                        port_id: port_id.duplicate(),
                        ifname: String::new(),
                        ifindex: None,
                        managed_domains: intent.affected_domains.duplicate(),
                        domain_desired_hashes: OrderedMap::new(),
                    };
                    assert(bare.ifname@ =~= Seq::<char>::empty());
                    assert(bare.deep_view() == bare_port(port_id@, model.affected_domains));
                    ports.insert(port_id.duplicate(), bare);
                },
            }
        }
        i += 1;
    }
    ports.values()
}

/// The identities that a snapshot is about.
pub open spec fn requested_ids(scope: ScopeModel, snapshot: NeutronSnapshotRequestModel) -> Seq<
    Seq<char>,
> {
    match scope {
        ScopeModel::FullHost => snapshot.ports.map_values(
            |port: NeutronPortSnapshotModel| port.port_id,
        ),
        ScopeModel::SinglePort(port_id) => seq![port_id],
    }
}

/// Lists the identities that a snapshot is about.
pub fn requested_port_ids_for_scope(scope: &ApplyScope, snapshot: &NeutronSnapshotRequest) -> (r:
    Vec<String>)
    ensures
        r.deep_view() == requested_ids(scope.deep_view(), snapshot.deep_view()),
{
    let ghost wanted = requested_ids(scope.deep_view(), snapshot.deep_view());
    let mut r: Vec<String> = Vec::new();
    match scope {
        ApplyScope::FullHost => {
            let mut i: usize = 0;
            assert(r.deep_view() =~= wanted.take(0));
            while i < snapshot.ports.len()
                invariant
                    i <= snapshot.ports.len(),
                    wanted == snapshot.ports.deep_view().map_values(
                        |port: NeutronPortSnapshotModel| port.port_id,
                    ),
                    r.deep_view() == wanted.take(i as int),
                decreases snapshot.ports.len() - i,
            {
                let ghost before = r.deep_view();
                let id = snapshot.ports[i].port_id.duplicate();
                r.push(id);
                assert(r.deep_view() =~= before.push(id.deep_view()));
                assert(wanted.take(i + 1) =~= wanted.take(i as int).push(wanted[i as int]));
                i += 1;
            }
            assert(wanted.take(i as int) =~= wanted);
        },
        ApplyScope::SinglePort(port_id) => {
            r.push(port_id.duplicate());
            assert(r.deep_view() =~= wanted);
        },
    }
    r
}

/// The first port, from the `i`-th on, that lies outside a scope.
pub open spec fn first_outside(
    ports: Seq<ManagedNeutronPortModel>,
    scope: ScopeModel,
    i: int,
) -> Option<Seq<char>>
    decreases ports.len() - i,
{
    if i < 0 || i >= ports.len() {
        None
    } else if !scope.holds(ports[i].port_id) {
        Some(ports[i].port_id)
    } else {
        first_outside(ports, scope, i + 1)
    }
}

/// The transaction of a plan, or why the plan does not keep to its scope.
pub open spec fn plan_transaction(
    scope: ScopeModel,
    snapshot: NeutronSnapshotRequestModel,
    plan: SnapshotPlanModel,
) -> Result<SnapshotApplyTransactionModel, ScopeErrorModel> {
    let ports = values_in_order::<String, ManagedNeutronPortModel>(plan_ports(plan));
    match scope_fault(scope, snapshot) {
        Some(error) => Err(error),
        None => match (scope, first_outside(ports, scope, 0)) {
            (ScopeModel::SinglePort(target), Some(actual)) => Err(
                ScopeErrorModel::ScopeWidened { target, actual },
            ),
            _ => Ok(
                SnapshotApplyTransactionModel {
                    scope,
                    plan,
                    requested_port_ids: requested_ids(scope, snapshot),
                    affected_domains: affected_domains(ports),
                    affected_ports: ports,
                },
            ),
        },
    }
}

fn find_outside(ports: &Vec<ManagedNeutronPort>, scope: &ApplyScope) -> (r: Option<String>)
    ensures
        r.deep_view() == first_outside(ports.deep_view(), scope.deep_view(), 0),
{
    let ghost models = ports.deep_view();
    let mut i: usize = 0;
    while i < ports.len()
        invariant
            i <= ports.len(),
            models == ports.deep_view(),
            first_outside(models, scope.deep_view(), i as int) == first_outside(
                models,
                scope.deep_view(),
                0,
            ),
        decreases ports.len() - i,
    {
        assert(models[i as int] == ports@[i as int].deep_view());
        if !scope.holds(ports[i].port_id.as_str()) {
            return Some(ports[i].port_id.duplicate());
        }
        i += 1;
    }
    None
}

/// Makes a transaction of a plan.
pub fn build_snapshot_transaction_from_plan(
    scope: ApplyScope,
    snapshot: &NeutronSnapshotRequest,
    plan: SnapshotPlan,
) -> (r: Result<SnapshotApplyTransaction, SnapshotScopeError>)
    ensures
        result_view(r) == plan_transaction(
            scope.deep_view(),
            snapshot.deep_view(),
            plan.deep_view(),
        ),
{
    if let Err(error) = validate_snapshot_scope(&scope, snapshot) {
        return Err(error);
    }
    let affected_ports = affected_ports_for_plan(&plan);
    let outside = find_outside(&affected_ports, &scope);
    if let ApplyScope::SinglePort(target) = &scope {
        if let Some(actual) = outside {
            return Err(SnapshotScopeError::ScopeWidened { target: target.duplicate(), actual });
        }
    }
    let requested_port_ids = requested_port_ids_for_scope(&scope, snapshot);
    let affected_domains = affected_domains_for_ports(&affected_ports);
    Ok(
        SnapshotApplyTransaction {
            scope,
            plan,
            requested_port_ids,
            affected_domains,
            affected_ports,
        },
    )
}

/// Plans a snapshot and makes a transaction of the plan.
pub fn build_snapshot_apply_transaction(
    current: &OrderedMap<String, ManagedNeutronPort>,
    snapshot: &NeutronSnapshotRequest,
    inventory: &LocalInterfaceInventory,
    scope: ApplyScope,
) -> (r: Result<SnapshotApplyTransaction, SnapshotScopeError>)
    ensures
        result_view(r) == plan_transaction(
            scope.deep_view(),
            snapshot.deep_view(),
            snapshot_plan(
                current.deep_view(),
                snapshot.deep_view(),
                inventory.deep_view(),
                scope.deep_view(),
            ),
        ),
{
    if let Err(error) = validate_snapshot_scope(&scope, snapshot) {
        return Err(error);
    }
    let plan = build_snapshot_plan_for_scope(current, snapshot, inventory, &scope);
    build_snapshot_transaction_from_plan(scope, snapshot, plan)
}

/// True when a wanted port differs from the managed one.
pub open spec fn port_drifted(
    current: Map<Seq<char>, ManagedNeutronPortModel>,
    port: NeutronPortSnapshotModel,
) -> bool {
    ||| !current.dom().contains(port.port_id)
    ||| current[port.port_id].ifname != port.ifname
    ||| current[port.port_id].ifindex != port.ifindex
    ||| normal_domains(current[port.port_id].managed_domains) != normal_domains(
        port.managed_domains,
    )
    ||| current[port.port_id].domain_desired_hashes != managed_port(port).domain_desired_hashes
}

/// True when carrying out a plan would change something.
pub open spec fn plan_changes(
    current: Map<Seq<char>, ManagedNeutronPortModel>,
    plan: SnapshotPlanModel,
) -> bool {
    ||| plan.inventory_error is Some
    ||| plan.attach.len() > 0
    ||| plan.detach.len() > 0
    ||| exists|i: int| 0 <= i < plan.update.len() && port_drifted(current, #[trigger] plan.update[i])
}

fn has_port_drifted(
    current: &OrderedMap<String, ManagedNeutronPort>,
    port: &NeutronPortSnapshot,
) -> (r: bool)
    ensures
        r == port_drifted(current.deep_view(), port.deep_view()),
{
    match current.get(&port.port_id) {
        None => true,
        Some(managed) => {
            let desired = managed_port_from_snapshot(port);
            !managed.ifname.same(&port.ifname) || !managed.ifindex.same(&port.ifindex)
                || !normalize_managed_domains(&managed.managed_domains).same(
                &normalize_managed_domains(&port.managed_domains),
            ) || !managed.domain_desired_hashes.same(&desired.domain_desired_hashes)
        },
    }
}

/// Whether applying a snapshot would change something within a scope.
pub fn snapshot_has_runtime_drift_for_scope(
    current: &OrderedMap<String, ManagedNeutronPort>,
    snapshot: &NeutronSnapshotRequest,
    inventory: &LocalInterfaceInventory,
    scope: &ApplyScope,
) -> (r: bool)
    ensures
        r == plan_changes(
            current.deep_view(),
            snapshot_plan(
                current.deep_view(),
                snapshot.deep_view(),
                inventory.deep_view(),
                scope.deep_view(),
            ),
        ),
{
    let plan = build_snapshot_plan_for_scope(current, snapshot, inventory, scope);
    let ghost model = plan.deep_view();
    if plan.inventory_error.is_some() || plan.attach.len() > 0 || plan.detach.len() > 0 {
        return true;
    }
    let mut i: usize = 0;
    while i < plan.update.len()
        invariant
            i <= plan.update.len(),
            model == plan.deep_view(),
            model == snapshot_plan(
                current.deep_view(),
                snapshot.deep_view(),
                inventory.deep_view(),
                scope.deep_view(),
            ),
            forall|j: int|
                0 <= j < i ==> !port_drifted(current.deep_view(), #[trigger] model.update[j]),
        ensures
            i == plan.update.len(),
        decreases plan.update.len() - i,
    {
        assert(model.update[i as int] == plan.update@[i as int].deep_view());
        if has_port_drifted(current, &plan.update[i]) {
            assert(plan_changes(current.deep_view(), model));
            return true;
        }
        i += 1;
    }
    false
}

/// Whether applying a snapshot of the whole host would change something.
pub fn snapshot_has_runtime_drift(
    current: &OrderedMap<String, ManagedNeutronPort>,
    snapshot: &NeutronSnapshotRequest,
    inventory: &LocalInterfaceInventory,
) -> (r: bool)
    ensures
        r == plan_changes(
            current.deep_view(),
            snapshot_plan(
                current.deep_view(),
                snapshot.deep_view(),
                inventory.deep_view(),
                ScopeModel::FullHost,
            ),
        ),
{
    snapshot_has_runtime_drift_for_scope(current, snapshot, inventory, &ApplyScope::FullHost)
}

/// The interfaces of the managed ports, among the first `n` of a snapshot, whose filtering the
/// snapshot manages.
pub open spec fn acl_interfaces(
    scope: ScopeModel,
    managed: Map<Seq<char>, ManagedNeutronPortModel>,
    ports: Seq<NeutronPortSnapshotModel>,
    n: int,
) -> Set<Seq<char>>
    decreases n,
{
    if n <= 0 {
        Set::empty()
    } else {
        let before = acl_interfaces(scope, managed, ports, n - 1);
        let port = ports[n - 1];
        if scope.holds(port.port_id) && manages_acl(port.managed_domains) && managed.dom().contains(
            port.port_id,
        ) {
            before.insert(managed[port.port_id].ifname)
        } else {
            before
        }
    }
}

/// Lists the interfaces whose filtering has to be looked at before an answer that nothing changed.
pub fn managed_acl_projection_verification_targets(
    scope: &ApplyScope,
    runtime: &NeutronRuntimeState,
    snapshot: &NeutronSnapshotRequest,
) -> (r: Vec<String>)
    ensures
        r.deep_view() == in_order::<String>(
            acl_interfaces(
                scope.deep_view(),
                runtime.deep_view().ports,
                snapshot.deep_view().ports,
                snapshot.ports.len() as int,
            ),
        ),
{
    let ghost ports = snapshot.ports.deep_view();
    let mut names: OrderedMap<String, bool> = OrderedMap::new();
    let mut i: usize = 0;
    assert(names.deep_view().dom() =~= Set::<Seq<char>>::empty());
    while i < snapshot.ports.len()
        invariant
            i <= snapshot.ports.len(),
            ports == snapshot.ports.deep_view(),
            names.deep_view().dom() == acl_interfaces(
                scope.deep_view(),
                runtime.ports.deep_view(),
                ports,
                i as int,
            ),
        decreases snapshot.ports.len() - i,
    {
        let port = &snapshot.ports[i];
        assert(ports[i as int] == port.deep_view());
        if scope.holds(port.port_id.as_str()) && port_manages_acl(port) {
            if let Some(managed) = runtime.ports.get(&port.port_id) {
                let ghost before = names.deep_view().dom();
                names.insert(managed.ifname.duplicate(), true);
                assert(names.deep_view().dom() =~= before.insert(managed.ifname@));
            }
        }
        i += 1;
    }
    ordered_texts(&names)
}

/// True when a generation is applied with nothing pending.
pub open spec fn fully_applied(runtime: NeutronRuntimeStateModel, generation: u64) -> bool {
    &&& generation > 0
    &&& generation == runtime.applied_generation
    &&& runtime.pending_generation is None
    &&& runtime.authority_state == "ready"@
}

/// Whether a generation is applied with nothing pending.
pub fn snapshot_generation_fully_applied(runtime: &NeutronRuntimeState, generation: u64) -> (r: bool)
    ensures
        r == fully_applied(runtime.deep_view(), generation),
{
    generation > 0 && generation == runtime.applied_generation
        && runtime.pending_generation.is_none() && text_eq(
        runtime.authority_state.as_str(),
        "ready",
    )
}

/// An answer that leaves the runtime as it is.
pub open spec fn unchanged_response(
    runtime: NeutronRuntimeStateModel,
    generation: u64,
    desired_hash: Option<Seq<char>>,
    status: Seq<char>,
    results: Seq<NeutronPortApplyResultModel>,
) -> NeutronSnapshotResponseModel {
    NeutronSnapshotResponseModel {
        generation,
        desired_hash,
        accepted_generation: runtime.accepted_generation,
        applied_generation: runtime.applied_generation,
        status,
        results,
        active_instances: Seq::empty(),
    }
}

/// The record of a snapshot that came too late.
pub open spec fn stale_result() -> NeutronPortApplyResultModel {
    port_result("snapshot"@, ""@, "ignore"@, "ignored"@, Some("stale_generation"@))
}

/// The refusal of a second desired state for a generation that is applied.
pub open spec fn applied_hash_conflict(generation: u64) -> SnapshotApplyErrorModel {
    refusal(
        ReplyStatus::Conflict,
        "generation_hash_conflict"@,
        "generation "@ + decimal(generation as nat)
            + " already applied with a different desired_hash"@,
    )
}

/// What a snapshot is answered without being applied, if it is.
pub open spec fn early_response(
    scope: ScopeModel,
    runtime: NeutronRuntimeStateModel,
    snapshot: NeutronSnapshotRequestModel,
    inventory: LocalInterfaceInventoryModel,
    requested_hash: Option<Seq<char>>,
) -> Result<Option<NeutronSnapshotResponseModel>, SnapshotApplyErrorModel> {
    let generation = snapshot.generation;
    if 0 < generation < runtime.applied_generation {
        Ok(
            Some(
                unchanged_response(
                    runtime,
                    generation,
                    requested_hash,
                    "stale"@,
                    seq![stale_result()],
                ),
            ),
        )
    } else if !fully_applied(runtime, generation) {
        Ok(None)
    } else if requested_hash == runtime.applied_desired_hash {
        if plan_changes(runtime.ports, snapshot_plan(runtime.ports, snapshot, inventory, scope)) {
            Ok(None)
        } else {
            Ok(Some(unchanged_response(runtime, generation, requested_hash, "noop"@, Seq::empty())))
        }
    } else if requested_hash is Some && runtime.applied_desired_hash is Some {
        Err(applied_hash_conflict(generation))
    } else {
        Ok(None)
    }
}

/// Answers a snapshot that need not be applied.
pub fn snapshot_early_response_for_scope(
    scope: &ApplyScope,
    runtime: &NeutronRuntimeState,
    snapshot: &NeutronSnapshotRequest,
    inventory: &LocalInterfaceInventory,
    requested_hash: &Option<String>,
) -> (r: Result<Option<NeutronSnapshotResponse>, SnapshotApplyError>)
    ensures
        result_view(r) == early_response(
            scope.deep_view(),
            runtime.deep_view(),
            snapshot.deep_view(),
            inventory.deep_view(),
            requested_hash.deep_view(),
        ),
{
    if snapshot.generation > 0 && snapshot.generation < runtime.applied_generation {
        let mut results = Vec::new();
        results.push(
            transaction_result("snapshot", "", "ignore", "ignored", Some("stale_generation")),
        );
        assert(results.deep_view() =~= seq![stale_result()]);
        let active: Vec<String> = Vec::new();
        assert(active.deep_view() =~= Seq::<Seq<char>>::empty());
        return Ok(
            Some(
                neutron_snapshot_response(
                    snapshot.generation,
                    requested_hash.duplicate(),
                    runtime.accepted_generation,
                    runtime.applied_generation,
                    "stale",
                    results,
                    active,
                ),
            ),
        );
    }
    if !snapshot_generation_fully_applied(runtime, snapshot.generation) {
        return Ok(None);
    }
    if hashes_match(requested_hash, &runtime.applied_desired_hash) {
        if snapshot_has_runtime_drift_for_scope(&runtime.ports, snapshot, inventory, scope) {
            return Ok(None);
        }
        let results = Vec::new();
        assert(results.deep_view() =~= Seq::<NeutronPortApplyResultModel>::empty());
        let active: Vec<String> = Vec::new();
        assert(active.deep_view() =~= Seq::<Seq<char>>::empty());
        return Ok(
            Some(
                neutron_snapshot_response(
                    snapshot.generation,
                    requested_hash.duplicate(),
                    runtime.accepted_generation,
                    runtime.applied_generation,
                    "noop",
                    results,
                    active,
                ),
            ),
        );
    }
    if requested_hash.is_some() && runtime.applied_desired_hash.is_some() {
        let mut details = "generation ".to_owned();
        details.append(u64_text(snapshot.generation).as_str());
        details.append(" already applied with a different desired_hash");
        return Err(conflict("generation_hash_conflict", details.as_str()));
    }
    Ok(None)
}

/// The statuses that an apply starts from: those that it is not about.
pub open spec fn status_seed(
    statuses: Map<Seq<char>, NeutronPortStatusModel>,
    scope: ScopeModel,
) -> Map<Seq<char>, NeutronPortStatusModel> {
    match scope {
        ScopeModel::FullHost => Map::empty(),
        ScopeModel::SinglePort(port_id) => statuses.remove(port_id),
    }
}

/// Lists the statuses that an apply starts from.
pub fn port_status_seed_for_scope(runtime: &NeutronRuntimeState, scope: &ApplyScope) -> (r:
    OrderedMap<String, NeutronPortStatus>)
    ensures
        r.deep_view() == status_seed(runtime.deep_view().port_statuses, scope.deep_view()),
{
    match scope {
        ApplyScope::FullHost => OrderedMap::new(),
        ApplyScope::SinglePort(port_id) => {
            let mut statuses = runtime.port_statuses.duplicate();
            statuses.remove(port_id);
            statuses
        },
    }
}

/// The runtime after an apply: the applied generation moves only where nothing failed.
pub open spec fn committed(
    previous: NeutronRuntimeStateModel,
    generation: u64,
    requested_hash: Option<Seq<char>>,
    ports: Map<Seq<char>, ManagedNeutronPortModel>,
    statuses: Map<Seq<char>, NeutronPortStatusModel>,
    has_error: bool,
) -> NeutronRuntimeStateModel {
    let next = NeutronRuntimeStateModel {
        accepted_generation: generation,
        desired_hash: requested_hash,
        ports,
        port_statuses: statuses,
        wal_status: "commit_written"@,
        recovery_cause: None,
        ..previous
    };
    if has_error {
        NeutronRuntimeStateModel {
            pending_generation: Some(generation),
            authority_state: "partial"@,
            ..next
        }
    } else {
        NeutronRuntimeStateModel {
            applied_generation: generation,
            applied_desired_hash: requested_hash,
            pending_generation: None,
            authority_state: "ready"@,
            ..next
        }
    }
}

/// Makes the runtime after an apply.
pub fn build_snapshot_commit_runtime(
    previous: &NeutronRuntimeState,
    generation: u64,
    requested_hash: Option<String>,
    next_ports: OrderedMap<String, ManagedNeutronPort>,
    next_statuses: OrderedMap<String, NeutronPortStatus>,
    has_error: bool,
) -> (r: NeutronRuntimeState)
    ensures
        r.deep_view() == committed(
            previous.deep_view(),
            generation,
            requested_hash.deep_view(),
            next_ports.deep_view(),
            next_statuses.deep_view(),
            has_error,
        ),
{
    let mut next = previous.duplicate();
    next.accepted_generation = generation;
    next.desired_hash = requested_hash.duplicate();
    next.ports = next_ports;
    next.port_statuses = next_statuses;
    next.wal_status = "commit_written".to_owned();
    next.recovery_cause = None;
    if has_error {
        next.pending_generation = Some(generation);
        next.authority_state = "partial".to_owned();
    } else {
        next.applied_generation = generation;
        next.applied_desired_hash = requested_hash;
        next.pending_generation = None;
        next.authority_state = "ready".to_owned();
    }
    next
}

/// The statuses of the first `n` domains by name; of two with one name the later counts.
pub open spec fn statuses_by_domain(domains: Seq<NeutronDomainStatusModel>, n: int) -> Map<
    Seq<char>,
    Seq<char>,
>
    decreases n,
{
    if n <= 0 {
        Map::empty()
    } else {
        statuses_by_domain(domains, n - 1).insert(domains[n - 1].domain, domains[n - 1].status)
    }
}

/// True when a port and each of its domains but the attachment are ready.
pub open spec fn ready_for_skip(
    status: Option<NeutronPortStatusModel>,
    domains: Seq<Seq<char>>,
) -> bool {
    match status {
        None => false,
        Some(status) => {
            let by_domain = statuses_by_domain(status.domains, status.domains.len() as int);
            &&& lowered(status.status) == lowered("ready"@)
            &&& forall|i: int|
                0 <= i < domains.len() && #[trigger] domains[i] != "attach"@
                    ==> by_domain.dom().contains(domains[i]) && lowered(by_domain[domains[i]])
                    == lowered("ready"@)
        },
    }
}

fn domain_status_map(domains: &Vec<NeutronDomainStatus>) -> (r: OrderedMap<String, String>)
    ensures
        r.deep_view() == statuses_by_domain(domains.deep_view(), domains.len() as int),
{
    let ghost models = domains.deep_view();
    let mut r: OrderedMap<String, String> = OrderedMap::new();
    let mut i: usize = 0;
    while i < domains.len()
        invariant
            i <= domains.len(),
            models == domains.deep_view(),
            r.deep_view() == statuses_by_domain(models, i as int),
        decreases domains.len() - i,
    {
        assert(models[i as int] == domains@[i as int].deep_view());
        r.insert(domains[i].domain.duplicate(), domains[i].status.duplicate());
        i += 1;
    }
    r
}

/// Whether a port and each of its domains but the attachment are ready.
pub fn port_status_ready_for_skip(
    status: Option<&NeutronPortStatus>,
    managed_domains: &Vec<String>,
) -> (r: bool)
    ensures
        r == ready_for_skip(status.deep_view(), managed_domains.deep_view()),
{
    let known = match status {
        Some(known) => known,
        None => {
            return false;
        },
    };
    if !text_eq_ignore_case(known.status.as_str(), "ready") {
        return false;
    }
    let by_domain = domain_status_map(&known.domains);
    let ghost names = managed_domains.deep_view();
    let mut i: usize = 0;
    while i < managed_domains.len()
        invariant
            i <= managed_domains.len(),
            names == managed_domains.deep_view(),
            status.deep_view() == Some(known.deep_view()),
            by_domain.deep_view() == statuses_by_domain(
                known.deep_view().domains,
                known.deep_view().domains.len() as int,
            ),
            forall|j: int|
                0 <= j < i && #[trigger] names[j] != "attach"@ ==> by_domain.deep_view().dom().contains(
                    names[j],
                ) && lowered(by_domain.deep_view()[names[j]]) == lowered("ready"@),
        ensures
            i == managed_domains.len(),
        decreases managed_domains.len() - i,
    {
        let domain = &managed_domains[i];
        assert(names[i as int] == domain@);
        if !text_eq(domain.as_str(), "attach") {
            let ready = match by_domain.get(domain) {
                Some(state) => text_eq_ignore_case(state.as_str(), "ready"),
                None => false,
            };
            if !ready {
                return false;
            }
        }
        i += 1;
    }
    true
}

/// What is known of the filtering state of an interface.
#[derive(Clone, Copy, Debug, PartialEq, Eq, Structural)]
pub enum ManagedProjectionHealth {
    Verified,
    Unverified,
    RepairRequired,
}

impl DeepView for ManagedProjectionHealth {
    type V = ManagedProjectionHealth;

    open spec fn deep_view(&self) -> ManagedProjectionHealth {
        *self
    }
}

impl Value for ManagedProjectionHealth {
    fn duplicate(&self) -> (r: Self) {
        *self
    }

    fn same(&self, other: &Self) -> (r: bool) {
        *self == *other
    }
}

/// True when a port already is what it should be.
pub open spec fn may_skip(
    current: Option<ManagedNeutronPortModel>,
    previous_status: Option<NeutronPortStatusModel>,
    desired: ManagedNeutronPortModel,
    full_resync: bool,
    projection_health: Option<ManagedProjectionHealth>,
) -> bool {
    &&& manages_acl(desired.managed_domains) ==> !full_resync && projection_health == Some(
        ManagedProjectionHealth::Verified,
    )
    &&& match current {
        None => false,
        Some(current) => {
            &&& binding_same(current.ifname, current.ifindex, desired.ifname, desired.ifindex)
            &&& current.managed_domains == desired.managed_domains
            &&& current.domain_desired_hashes == desired.domain_desired_hashes
            &&& ready_for_skip(previous_status, desired.managed_domains)
        },
    }
}

/// Whether a port already is what it should be.
pub fn can_skip_neutron_domain_reconcile(
    current: Option<&ManagedNeutronPort>,
    previous_status: Option<&NeutronPortStatus>,
    desired: &ManagedNeutronPort,
    full_resync: bool,
    projection_health: Option<ManagedProjectionHealth>,
) -> (r: bool)
    ensures
        r == may_skip(
            current.deep_view(),
            previous_status.deep_view(),
            desired.deep_view(),
            full_resync,
            projection_health,
        ),
{
    let verified = match projection_health {
        Some(ManagedProjectionHealth::Verified) => true,
        _ => false,
    };
    if domains_manage_acl(&desired.managed_domains) && (full_resync || !verified) {
        return false;
    }
    match current {
        None => false,
        Some(current) => managed_runtime_binding_matches(current, desired)
            && current.managed_domains.same(&desired.managed_domains)
            && current.domain_desired_hashes.same(&desired.domain_desired_hashes)
            && port_status_ready_for_skip(previous_status, &desired.managed_domains),
    }
}

} // verus!
