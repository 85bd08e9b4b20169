//! Taking the committed ports over again after a restart.

use crate::apply::{authority_mark, AuthorityMark, AuthorityMarkModel};
use crate::domains::{domains_manage_acl, manages_acl, required_neutron_publication_mode};
use crate::health::{
    defer_missing_committed_interfaces, deferrable, deferred_result,
    project_committed_runtime_reconcile, reconciled_runtime, ReconcileResultModel,
    RuntimeReconcileResult,
};
use crate::host::{is_text, string_is, HostOutcome, OutcomeModel};
use crate::model::{
    ManagedNeutronPort, ManagedNeutronPortModel, NeutronRuntimeState, NeutronRuntimeStateModel,
    NeutronWalState, NeutronWalStateModel,
};
use crate::ordered::{list_contains, values_in_order, OrderedMap, Value};
use crate::recovery::wal_of_runtime;
use vstd::prelude::*;
use vstd::string::*;

verus! {

/// The interfaces that are to be claimed, each with whether filtering is managed on it. While the
/// inventory is waited for, none is.
pub open spec fn interfaces_to_claim(runtime: NeutronRuntimeStateModel) -> Option<
    Seq<(Seq<char>, bool)>,
> {
    if is_text(runtime.recovery_cause, "inventory_unavailable"@) {
        None
    } else {
        Some(
            values_in_order::<String, ManagedNeutronPortModel>(runtime.ports).map_values(
                |port: ManagedNeutronPortModel|
                    (port.ifname, port.managed_domains.contains("acl"@)),
            ),
        )
    }
}

/// Lists the interfaces that are to be claimed.
pub fn committed_interfaces(runtime: &NeutronRuntimeState) -> (r: Option<Vec<(String, bool)>>)
    ensures
        r.deep_view() == interfaces_to_claim(runtime.deep_view()),
{
    if string_is(&runtime.recovery_cause, "inventory_unavailable") {
        return None;
    }
    let ports = runtime.ports.values();
    let ghost models = ports.deep_view();
    let ghost wanted = models.map_values(
        |port: ManagedNeutronPortModel| (port.ifname, port.managed_domains.contains("acl"@)),
    );
    let acl_name = "acl".to_owned();
    let mut r: Vec<(String, bool)> = Vec::new();
    let mut i: usize = 0;
    assert(r.deep_view() =~= wanted.take(0));
    while i < ports.len()
        invariant
            i <= ports.len(),
            models == ports.deep_view(),
            acl_name@ == "acl"@,
            wanted == models.map_values(
                |port: ManagedNeutronPortModel|
                    (port.ifname, port.managed_domains.contains("acl"@)),
            ),
            r.deep_view() == wanted.take(i as int),
        decreases ports.len() - i,
    {
        assert(models[i as int] == ports@[i as int].deep_view());
        let ghost before = r.deep_view();
        let entry = (
            ports[i].ifname.duplicate(),
            list_contains(&ports[i].managed_domains, &acl_name),
        );
        let ghost pushed = entry.deep_view();
        r.push(entry);
        assert(pushed == wanted[i as int]);
        assert(r.deep_view() =~= before.push(pushed));
        assert(wanted.take(i + 1) =~= wanted.take(i as int).push(wanted[i as int]));
        i += 1;
    }
    assert(wanted.take(i as int) =~= wanted);
    Some(r)
}

/// The interfaces of the first `n` ports that are not live.
pub open spec fn missing_among(
    ports: Seq<ManagedNeutronPortModel>,
    live: Set<Seq<char>>,
    n: int,
) -> Set<Seq<char>>
    decreases n,
{
    if n <= 0 {
        Set::empty()
    } else if live.contains(ports[n - 1].ifname) {
        missing_among(ports, live, n - 1)
    } else {
        missing_among(ports, live, n - 1).insert(ports[n - 1].ifname)
    }
}

/// The interfaces of the committed ports that are not live.
pub open spec fn missing_interfaces(
    runtime: NeutronRuntimeStateModel,
    live: Set<Seq<char>>,
) -> Set<Seq<char>> {
    let ports = values_in_order::<String, ManagedNeutronPortModel>(runtime.ports);
    missing_among(ports, live, ports.len() as int)
}

fn collect_missing(ports: &Vec<ManagedNeutronPort>, live: &OrderedMap<String, bool>) -> (r:
    OrderedMap<String, bool>)
    ensures
        r.deep_view().dom() == missing_among(
            ports.deep_view(),
            live.deep_view().dom(),
            ports.len() as int,
        ),
{
    let ghost models = ports.deep_view();
    let mut r: OrderedMap<String, bool> = OrderedMap::new();
    let mut i: usize = 0;
    assert(r.deep_view().dom() =~= Set::<Seq<char>>::empty());
    while i < ports.len()
        invariant
            i <= ports.len(),
            models == ports.deep_view(),
            r.deep_view().dom() == missing_among(models, live.deep_view().dom(), i as int),
        decreases ports.len() - i,
    {
        assert(models[i as int] == ports@[i as int].deep_view());
        if !live.contains_key(&ports[i].ifname) {
            let ghost before = r.deep_view().dom();
            r.insert(ports[i].ifname.duplicate(), true);
            assert(r.deep_view().dom() =~= before.insert(models[i as int].ifname));
        }
        i += 1;
    }
    r
}

/// What taking the committed ports over has to do next.
#[derive(Debug, PartialEq, Eq)]
pub enum CommittedStep {
    /// There is nothing to record.
    Nothing,
    /// Log the state.
    Commit { state: NeutronWalState },
    /// Publish the runtime.
    Publish(NeutronRuntimeState),
}

/// The model of [`CommittedStep`].
pub enum CommittedStepModel {
    Nothing,
    Commit { state: NeutronWalStateModel },
    Publish(NeutronRuntimeStateModel),
}

impl DeepView for CommittedStep {
    type V = CommittedStepModel;

    open spec fn deep_view(&self) -> CommittedStepModel {
        match self {
            CommittedStep::Nothing => CommittedStepModel::Nothing,
            CommittedStep::Commit { state } => {
                CommittedStepModel::Commit { state: state.deep_view() }
            },
            CommittedStep::Publish(runtime) => CommittedStepModel::Publish(runtime.deep_view()),
        }
    }
}

/// The runtime after the committed ports were claimed with the given results.
pub open spec fn claimed_runtime(
    runtime: NeutronRuntimeStateModel,
    live: Set<Seq<char>>,
    results: Seq<ReconcileResultModel>,
) -> NeutronRuntimeStateModel {
    let missing = missing_interfaces(runtime, live);
    reconciled_runtime(
        runtime,
        values_in_order::<String, ManagedNeutronPortModel>(runtime.ports),
        runtime.applied_generation,
        runtime.applied_desired_hash,
        results.map_values(|result: ReconcileResultModel| deferred_result(result, missing)),
        exists|i: int| 0 <= i < results.len() && deferrable(#[trigger] results[i], missing),
    )
}

/// What taking the committed ports over has to do next, given what came of claiming them.
pub open spec fn committed_step(
    runtime: NeutronRuntimeStateModel,
    live: Set<Seq<char>>,
    results: Seq<ReconcileResultModel>,
    commit: Option<OutcomeModel>,
) -> CommittedStepModel {
    if is_text(runtime.recovery_cause, "inventory_unavailable"@) || results.len() == 0 {
        CommittedStepModel::Nothing
    } else {
        let next = claimed_runtime(runtime, live, results);
        match commit {
            None => CommittedStepModel::Commit { state: wal_of_runtime(next) },
            Some(OutcomeModel::Done) => CommittedStepModel::Publish(next),
            Some(OutcomeModel::Failed(_)) => CommittedStepModel::Publish(
                NeutronRuntimeStateModel {
                    authority_state: "wal_runtime_reconcile_commit_failed"@,
                    wal_status: "commit_failed"@,
                    ..next
                },
            ),
        }
    }
}

/// Tells what taking the committed ports over has to do next.
pub fn reconcile_committed_runtime(
    runtime: &NeutronRuntimeState,
    live_ifnames: &OrderedMap<String, bool>,
    results: &Vec<RuntimeReconcileResult>,
    commit: &Option<HostOutcome>,
) -> (r: CommittedStep)
    ensures
        r.deep_view() == committed_step(
            runtime.deep_view(),
            live_ifnames.deep_view().dom(),
            results.deep_view(),
            commit.deep_view(),
        ),
{
    assert(results.deep_view().len() == results.len());
    if string_is(&runtime.recovery_cause, "inventory_unavailable") || results.len() == 0 {
        return CommittedStep::Nothing;
    }
    let ports = runtime.ports.values();
    let missing = collect_missing(&ports, live_ifnames);
    let mut claims = results.duplicate();
    let deferred = defer_missing_committed_interfaces(&mut claims, &missing);
    assert(claims.deep_view().len() == claims.len());
    let mut next = match project_committed_runtime_reconcile(
        runtime,
        &ports,
        runtime.applied_generation,
        runtime.applied_desired_hash.duplicate(),
        &claims,
        deferred,
    ) {
        Some(next) => next,
        None => {
            return CommittedStep::Nothing;
        },
    };
    match commit {
        None => CommittedStep::Commit { state: next.to_wal_state() },
        Some(HostOutcome::Done) => CommittedStep::Publish(next),
        Some(HostOutcome::Failed(_)) => {
            next.authority_state = "wal_runtime_reconcile_commit_failed".to_owned();
            next.wal_status = "commit_failed".to_owned();
            CommittedStep::Publish(next)
        },
    }
}

/// The claim on the interface of a committed port; nothing is asked of its filtering.
pub open spec fn restored_mark(
    port: ManagedNeutronPortModel,
    generation: u64,
) -> AuthorityMarkModel {
    AuthorityMarkModel {
        projection_health: None,
        ..authority_mark(port, generation, manages_acl(port.managed_domains))
    }
}

/// Lists the claims on the interfaces of the committed ports.
pub fn restore_neutron_authorities(runtime: &NeutronRuntimeState) -> (r: Vec<AuthorityMark>)
    ensures
        r.deep_view() == values_in_order::<String, ManagedNeutronPortModel>(
            runtime.deep_view().ports,
        ).map_values(
            |port: ManagedNeutronPortModel| restored_mark(port, runtime.applied_generation),
        ),
{
    let ports = runtime.ports.values();
    let generation = runtime.applied_generation;
    let ghost models = ports.deep_view();
    let ghost wanted = models.map_values(
        |port: ManagedNeutronPortModel| restored_mark(port, generation),
    );
    let mut r: Vec<AuthorityMark> = Vec::new();
    let mut i: usize = 0;
    assert(r.deep_view() =~= wanted.take(0));
    while i < ports.len()
        invariant
            i <= ports.len(),
            models == ports.deep_view(),
            wanted == models.map_values(
                |port: ManagedNeutronPortModel| restored_mark(port, generation),
            ),
            r.deep_view() == wanted.take(i as int),
        decreases ports.len() - i,
    {
        let port = &ports[i];
        assert(models[i as int] == port.deep_view());
        let acl = domains_manage_acl(&port.managed_domains);
        let mark = AuthorityMark {
            ifname: port.ifname.duplicate(),
            port_id: port.port_id.duplicate(),
            managed_domains: port.managed_domains.duplicate(),
            generation,
            publication_mode: required_neutron_publication_mode(acl),
            projection_health: None,
        };
        let ghost before = r.deep_view();
        let ghost pushed = mark.deep_view();
        r.push(mark);
        assert(pushed == wanted[i as int]);
        assert(r.deep_view() =~= before.push(pushed));
        assert(wanted.take(i + 1) =~= wanted.take(i as int).push(wanted[i as int]));
        i += 1;
    }
    assert(wanted.take(i as int) =~= wanted);
    r
}

} // verus!
