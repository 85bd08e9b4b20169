//! What restarts and lost links do to a committed runtime.

use crate::domains::{domains_manage_acl, manages_acl, normal_domains, normalize_managed_domains};
use crate::host::{is_text, string_is};
use crate::inventory::lookup;
use crate::model::{
    ManagedNeutronPort, ManagedNeutronPortModel, NeutronDomainStatus, NeutronDomainStatusModel,
    NeutronPortStatus, NeutronPortStatusModel, NeutronRuntimeState, NeutronRuntimeStateModel,
};
use crate::ordered::{in_order, lemma_in_order, values_in_order, OrderedMap, Value};
use crate::status::{
    domain_state, domain_status, domain_status_with_action, port_runtime_status, port_state,
    runtime_domain_statuses_for, runtime_domains, states_of,
};
use crate::text::{contains_text, has_part, has_prefix, starts_with, text_eq};
use vstd::prelude::*;
use vstd::string::*;

verus! {

/// The health of one running interface.
#[derive(Debug, PartialEq, Eq)]
pub struct InstanceRuntimeHealthSnapshot {
    pub name: String,
    pub acl_ready: bool,
    pub readiness_reason: Option<String>,
}

/// The model of [`InstanceRuntimeHealthSnapshot`].
#[verifier::ext_equal]
pub struct HealthModel {
    pub name: Seq<char>,
    pub acl_ready: bool,
    pub readiness_reason: Option<Seq<char>>,
}

impl DeepView for InstanceRuntimeHealthSnapshot {
    type V = HealthModel;

    open spec fn deep_view(&self) -> HealthModel {
        HealthModel {
            name: self.name.deep_view(),
            acl_ready: self.acl_ready,
            readiness_reason: self.readiness_reason.deep_view(),
        }
    }
}

impl Value for InstanceRuntimeHealthSnapshot {
    fn duplicate(&self) -> (r: Self) {
        InstanceRuntimeHealthSnapshot {
            name: self.name.duplicate(),
            acl_ready: self.acl_ready,
            readiness_reason: self.readiness_reason.duplicate(),
        }
    }

    fn same(&self, other: &Self) -> (r: bool) {
        self.name.same(&other.name)
            && self.acl_ready == other.acl_ready
            && self.readiness_reason.same(&other.readiness_reason)
    }
}

impl Clone for InstanceRuntimeHealthSnapshot {
    fn clone(&self) -> (r: Self)
        ensures
            r.deep_view() == self.deep_view(),
    {
        self.duplicate()
    }
}

/// What claiming or cleaning up one interface came to.
#[derive(Debug, PartialEq, Eq)]
pub struct RuntimeReconcileResult {
    pub ifname: String,
    pub action: String,
    pub status: String,
    pub reason: Option<String>,
}

/// The model of [`RuntimeReconcileResult`].
#[verifier::ext_equal]
pub struct ReconcileResultModel {
    pub ifname: Seq<char>,
    pub action: Seq<char>,
    pub status: Seq<char>,
    pub reason: Option<Seq<char>>,
}

impl DeepView for RuntimeReconcileResult {
    type V = ReconcileResultModel;

    open spec fn deep_view(&self) -> ReconcileResultModel {
        ReconcileResultModel {
            ifname: self.ifname.deep_view(),
            action: self.action.deep_view(),
            status: self.status.deep_view(),
            reason: self.reason.deep_view(),
        }
    }
}

impl Value for RuntimeReconcileResult {
    fn duplicate(&self) -> (r: Self) {
        RuntimeReconcileResult {
            ifname: self.ifname.duplicate(),
            action: self.action.duplicate(),
            status: self.status.duplicate(),
            reason: self.reason.duplicate(),
        }
    }

    fn same(&self, other: &Self) -> (r: bool) {
        self.ifname.same(&other.ifname)
            && self.action.same(&other.action)
            && self.status.same(&other.status)
            && self.reason.same(&other.reason)
    }
}

impl Clone for RuntimeReconcileResult {
    fn clone(&self) -> (r: Self)
        ensures
            r.deep_view() == self.deep_view(),
    {
        self.duplicate()
    }
}

/// True when a reason asks for the whole state to be sent again.
pub open spec fn asks_resync(reason: Option<Seq<char>>) -> bool {
    match reason {
        Some(reason) => has_part(reason, "requires_resync"@) || has_part(reason, "full_resync"@),
        None => false,
    }
}

/// True when a port or one of its domains asks for the whole state to be sent again.
pub open spec fn status_asks_resync(status: NeutronPortStatusModel) -> bool {
    asks_resync(status.reason) || exists|i: int|
        0 <= i < status.domains.len() && asks_resync((#[trigger] status.domains[i]).reason)
}

fn reason_asks_resync(reason: &Option<String>) -> (r: bool)
    ensures
        r == asks_resync(reason.deep_view()),
{
    match reason {
        Some(reason) => contains_text(reason.as_str(), "requires_resync") || contains_text(
            reason.as_str(),
            "full_resync",
        ),
        None => false,
    }
}

/// Whether a port or one of its domains asks for the whole state to be sent again.
pub fn neutron_status_requires_full_resync(status: &NeutronPortStatus) -> (r: bool)
    ensures
        r == status_asks_resync(status.deep_view()),
{
    if reason_asks_resync(&status.reason) {
        return true;
    }
    let ghost models = status.domains.deep_view();
    let mut i: usize = 0;
    while i < status.domains.len()
        invariant
            i <= status.domains.len(),
            models == status.domains.deep_view(),
            forall|j: int| 0 <= j < i ==> !asks_resync((#[trigger] models[j]).reason),
        ensures
            i == status.domains.len(),
        decreases status.domains.len() - i,
    {
        assert(models[i as int] == status.domains@[i as int].deep_view());
        if reason_asks_resync(&status.domains[i].reason) {
            assert(asks_resync(status.deep_view().domains[i as int].reason));
            return true;
        }
        i += 1;
    }
    false
}

/// True when the state is not one that the loss of a link may be noted in.
pub open spec fn health_blocked(runtime: NeutronRuntimeStateModel) -> bool {
    let state = runtime.authority_state;
    let log = runtime.wal_status;
    ||| runtime.pending_generation is Some
    ||| state == "blocked_recovery_required"@
    ||| state == "recovered_pending_full_resync_required"@
    ||| state == "recovered_pending_full_resync"@
    ||| state == "wal_recovery_commit_failed"@
    ||| state == "pending_recovery_commit_failed"@
    ||| state == "runtime_reconcile_requires_full_resync"@
    ||| state == "wal_runtime_reconcile_commit_failed"@
    ||| log == "commit_failed"@
    ||| log == "intent_recovery_blocked"@
    ||| log == "intent_recovered"@
    ||| log == "pending_recovered_to_last_applied"@
    ||| log == "runtime_reconciled_acl_resync_required"@
}

/// Whether the state is not one that the loss of a link may be noted in.
pub fn neutron_tc_health_projection_blocked(runtime: &NeutronRuntimeState) -> (r: bool)
    ensures
        r == health_blocked(runtime.deep_view()),
{
    let state = runtime.authority_state.as_str();
    let log = runtime.wal_status.as_str();
    runtime.pending_generation.is_some() || text_eq(state, "blocked_recovery_required") || text_eq(
        state,
        "recovered_pending_full_resync_required",
    ) || text_eq(state, "recovered_pending_full_resync") || text_eq(
        state,
        "wal_recovery_commit_failed",
    ) || text_eq(state, "pending_recovery_commit_failed") || text_eq(
        state,
        "runtime_reconcile_requires_full_resync",
    ) || text_eq(state, "wal_runtime_reconcile_commit_failed") || text_eq(log, "commit_failed")
        || text_eq(log, "intent_recovery_blocked") || text_eq(log, "intent_recovered") || text_eq(
        log,
        "pending_recovered_to_last_applied",
    ) || text_eq(log, "runtime_reconciled_acl_resync_required")
}

/// The first `n` domains by name; of two with one name the later counts.
pub open spec fn domains_by_name(domains: Seq<NeutronDomainStatusModel>, n: int) -> Map<
    Seq<char>,
    NeutronDomainStatusModel,
>
    decreases n,
{
    if n <= 0 {
        Map::empty()
    } else {
        domains_by_name(domains, n - 1).insert(domains[n - 1].domain, domains[n - 1])
    }
}

/// All domains by name.
pub open spec fn domain_map(domains: Seq<NeutronDomainStatusModel>) -> Map<
    Seq<char>,
    NeutronDomainStatusModel,
> {
    domains_by_name(domains, domains.len() as int)
}

fn collect_domain_map(domains: &Vec<NeutronDomainStatus>) -> (r: OrderedMap<
    String,
    NeutronDomainStatus,
>)
    ensures
        r.deep_view() == domain_map(domains.deep_view()),
{
    let ghost models = domains.deep_view();
    let mut r: OrderedMap<String, NeutronDomainStatus> = OrderedMap::new();
    let mut i: usize = 0;
    while i < domains.len()
        invariant
            i <= domains.len(),
            models == domains.deep_view(),
            r.deep_view() == domains_by_name(models, i as int),
        decreases domains.len() - i,
    {
        assert(models[i as int] == domains@[i as int].deep_view());
        r.insert(domains[i].domain.duplicate(), domains[i].duplicate());
        i += 1;
    }
    r
}

/// The state of filtering after its link was lost.
pub open spec fn lost_acl_state() -> NeutronDomainStatusModel {
    domain_state("acl"@, "degraded"@, Some("tc_acl_link_lost"@), Some("bypass"@))
}

/// The status of a port after its link was lost.
pub open spec fn lost_status(status: NeutronPortStatusModel) -> NeutronPortStatusModel {
    NeutronPortStatusModel {
        status: "degraded"@,
        reason: Some("tc_acl_link_lost"@),
        domains: values_in_order::<String, NeutronDomainStatusModel>(
            domain_map(status.domains).insert("acl"@, lost_acl_state()),
        ),
        ..status
    }
}

/// True when the loss of the link is noted already.
pub open spec fn loss_noted(status: NeutronPortStatusModel) -> bool {
    &&& status.status == "degraded"@
    &&& is_text(status.reason, "tc_acl_link_lost"@)
    &&& exists|i: int| 0 <= i < status.domains.len() && #[trigger] status.domains[i] == lost_acl_state()
}

/// The first `n` interfaces by name; of two with one name the later counts.
pub open spec fn health_by_name(health: Seq<HealthModel>, n: int) -> Map<Seq<char>, HealthModel>
    decreases n,
{
    if n <= 0 {
        Map::empty()
    } else {
        health_by_name(health, n - 1).insert(health[n - 1].name, health[n - 1])
    }
}

/// True when an interface lost the link that filtering needs.
pub open spec fn link_lost(snapshot: HealthModel) -> bool {
    &&& !snapshot.acl_ready
    &&& match snapshot.readiness_reason {
        Some(reason) => has_prefix(reason, "missing_tc_"@) || has_prefix(
            reason,
            "acl_quiesce_failed:"@,
        ),
        None => false,
    }
}

/// True when the loss of the link of a port has to be noted.
pub open spec fn loss_to_note(
    statuses: Map<Seq<char>, NeutronPortStatusModel>,
    port: ManagedNeutronPortModel,
    health: Map<Seq<char>, HealthModel>,
) -> bool {
    &&& manages_acl(port.managed_domains)
    &&& health.dom().contains(port.ifname)
    &&& link_lost(health[port.ifname])
    &&& statuses.dom().contains(port.port_id)
    &&& !status_asks_resync(statuses[port.port_id])
    &&& !loss_noted(statuses[port.port_id])
}

/// The statuses after the first `n` ports were looked at.
pub open spec fn statuses_after_loss(
    statuses: Map<Seq<char>, NeutronPortStatusModel>,
    ports: Seq<ManagedNeutronPortModel>,
    health: Map<Seq<char>, HealthModel>,
    n: int,
) -> Map<Seq<char>, NeutronPortStatusModel>
    decreases n,
{
    if n <= 0 {
        statuses
    } else {
        let before = statuses_after_loss(statuses, ports, health, n - 1);
        let port = ports[n - 1];
        if loss_to_note(before, port, health) {
            before.insert(port.port_id, lost_status(before[port.port_id]))
        } else {
            before
        }
    }
}

/// True when one of the first `n` ports has a loss that had to be noted.
pub open spec fn loss_among(
    statuses: Map<Seq<char>, NeutronPortStatusModel>,
    ports: Seq<ManagedNeutronPortModel>,
    health: Map<Seq<char>, HealthModel>,
    n: int,
) -> bool
    decreases n,
{
    n > 0 && (loss_among(statuses, ports, health, n - 1) || loss_to_note(
        statuses_after_loss(statuses, ports, health, n - 1),
        ports[n - 1],
        health,
    ))
}

/// Whether a lost link has to be noted.
pub open spec fn loss_projected(runtime: NeutronRuntimeStateModel, health: Seq<HealthModel>) -> bool {
    let ports = values_in_order::<String, ManagedNeutronPortModel>(runtime.ports);
    !health_blocked(runtime) && loss_among(
        runtime.port_statuses,
        ports,
        health_by_name(health, health.len() as int),
        ports.len() as int,
    )
}

/// The runtime with all lost links noted.
pub open spec fn after_link_loss(
    runtime: NeutronRuntimeStateModel,
    health: Seq<HealthModel>,
) -> NeutronRuntimeStateModel {
    let ports = values_in_order::<String, ManagedNeutronPortModel>(runtime.ports);
    if loss_projected(runtime, health) {
        NeutronRuntimeStateModel {
            port_statuses: statuses_after_loss(
                runtime.port_statuses,
                ports,
                health_by_name(health, health.len() as int),
                ports.len() as int,
            ),
            authority_state: "runtime_degraded"@,
            wal_status: "tc_acl_link_lost"@,
            ..runtime
        }
    } else {
        runtime
    }
}

fn is_loss_noted(status: &NeutronPortStatus) -> (r: bool)
    ensures
        r == loss_noted(status.deep_view()),
{
    if !text_eq(status.status.as_str(), "degraded") || !string_is(
        &status.reason,
        "tc_acl_link_lost",
    ) {
        return false;
    }
    let ghost models = status.domains.deep_view();
    let mut i: usize = 0;
    while i < status.domains.len()
        invariant
            i <= status.domains.len(),
            models == status.domains.deep_view(),
            status.deep_view().status == "degraded"@,
            is_text(status.deep_view().reason, "tc_acl_link_lost"@),
            forall|j: int| 0 <= j < i ==> #[trigger] models[j] != lost_acl_state(),
        ensures
            i == status.domains.len(),
        decreases status.domains.len() - i,
    {
        let domain = &status.domains[i];
        assert(models[i as int] == domain.deep_view());
        if text_eq(domain.domain.as_str(), "acl") && text_eq(domain.status.as_str(), "degraded")
            && string_is(&domain.reason, "tc_acl_link_lost") && string_is(
            &domain.effective_action,
            "bypass",
        ) {
            assert(status.deep_view().domains[i as int] == lost_acl_state());
            return true;
        }
        i += 1;
    }
    false
}

fn is_link_lost(snapshot: &InstanceRuntimeHealthSnapshot) -> (r: bool)
    ensures
        r == link_lost(snapshot.deep_view()),
{
    if snapshot.acl_ready {
        return false;
    }
    match &snapshot.readiness_reason {
        Some(reason) => starts_with(reason.as_str(), "missing_tc_") || starts_with(
            reason.as_str(),
            "acl_quiesce_failed:",
        ),
        None => false,
    }
}

fn collect_health(health: &Vec<InstanceRuntimeHealthSnapshot>) -> (r: OrderedMap<
    String,
    InstanceRuntimeHealthSnapshot,
>)
    ensures
        r.deep_view() == health_by_name(health.deep_view(), health.len() as int),
{
    let ghost models = health.deep_view();
    let mut r: OrderedMap<String, InstanceRuntimeHealthSnapshot> = OrderedMap::new();
    let mut i: usize = 0;
    while i < health.len()
        invariant
            i <= health.len(),
            models == health.deep_view(),
            r.deep_view() == health_by_name(models, i as int),
        decreases health.len() - i,
    {
        assert(models[i as int] == health@[i as int].deep_view());
        r.insert(health[i].name.duplicate(), health[i].duplicate());
        i += 1;
    }
    r
}

fn note_loss(status: &NeutronPortStatus) -> (r: NeutronPortStatus)
    ensures
        r.deep_view() == lost_status(status.deep_view()),
{
    let mut domains = collect_domain_map(&status.domains);
    domains.insert(
        "acl".to_owned(),
        domain_status_with_action(
            "acl",
            "degraded",
            Some("tc_acl_link_lost".to_owned()),
            Some("bypass".to_owned()),
        ),
    );
    let mut next = status.duplicate();
    next.status = "degraded".to_owned();
    next.reason = Some("tc_acl_link_lost".to_owned());
    next.domains = domains.values();
    next
}

/// Notes lost links in the statuses of the ports that they served.
pub fn project_tc_acl_link_loss(
    runtime: &mut NeutronRuntimeState,
    health: &Vec<InstanceRuntimeHealthSnapshot>,
) -> (r: bool)
    ensures
        r == loss_projected(old(runtime).deep_view(), health.deep_view()),
        final(runtime).deep_view() == after_link_loss(
            old(runtime).deep_view(),
            health.deep_view(),
        ),
{
    if neutron_tc_health_projection_blocked(runtime) {
        return false;
    }
    let by_name = collect_health(health);
    let ports = runtime.ports.values();
    let ghost models = ports.deep_view();
    let ghost start = runtime.port_statuses.deep_view();
    let mut statuses = runtime.port_statuses.duplicate();
    let mut changed = false;
    let mut i: usize = 0;
    while i < ports.len()
        invariant
            i <= ports.len(),
            models == ports.deep_view(),
            statuses.deep_view() == statuses_after_loss(
                start,
                models,
                by_name.deep_view(),
                i as int,
            ),
            changed == loss_among(start, models, by_name.deep_view(), i as int),
        decreases ports.len() - i,
    {
        let port = &ports[i];
        assert(models[i as int] == port.deep_view());
        let lost = domains_manage_acl(&port.managed_domains) && match by_name.get(&port.ifname) {
            Some(snapshot) => is_link_lost(snapshot),
            None => false,
        };
        let noted = match statuses.get(&port.port_id) {
            Some(status) => if lost && !neutron_status_requires_full_resync(status)
                && !is_loss_noted(status) {
                Some(note_loss(status))
            } else {
                None
            },
            None => None,
        };
        if let Some(status) = noted {
            statuses.insert(port.port_id.duplicate(), status);
            changed = true;
        }
        i += 1;
    }
    if changed {
        runtime.port_statuses = statuses;
        runtime.authority_state = "runtime_degraded".to_owned();
        runtime.wal_status = "tc_acl_link_lost".to_owned();
    }
    changed
}

/// Notes, in what came of claiming interfaces, those that are missing for now.
pub open spec fn deferrable(result: ReconcileResultModel, missing: Set<Seq<char>>) -> bool {
    &&& result.action == "claim_committed"@
    &&& result.status == "blocked"@
    &&& missing.contains(result.ifname)
}

/// What came of an interface, put off where the interface is missing for now.
pub open spec fn deferred_result(
    result: ReconcileResultModel,
    missing: Set<Seq<char>>,
) -> ReconcileResultModel {
    if deferrable(result, missing) {
        ReconcileResultModel {
            status: "deferred"@,
            reason: Some("runtime_rebuild_required"@),
            ..result
        }
    } else {
        result
    }
}

/// Puts off the interfaces that are missing for now, and tells whether there are any.
pub fn defer_missing_committed_interfaces(
    results: &mut Vec<RuntimeReconcileResult>,
    missing_ifnames: &OrderedMap<String, bool>,
) -> (r: bool)
    ensures
        final(results).deep_view() == old(results).deep_view().map_values(
            |result: ReconcileResultModel|
                deferred_result(result, missing_ifnames.deep_view().dom()),
        ),
        r == exists|i: int|
            0 <= i < old(results).deep_view().len() && deferrable(
                #[trigger] old(results).deep_view()[i],
                missing_ifnames.deep_view().dom(),
            ),
{
    let ghost missing = missing_ifnames.deep_view().dom();
    let ghost start = results.deep_view();
    let ghost wanted = start.map_values(
        |result: ReconcileResultModel| deferred_result(result, missing),
    );
    let mut next: Vec<RuntimeReconcileResult> = Vec::new();
    let mut deferred = false;
    let mut i: usize = 0;
    assert(next.deep_view() =~= wanted.take(0));
    while i < results.len()
        invariant
            i <= results.len(),
            start == results.deep_view(),
            missing == missing_ifnames.deep_view().dom(),
            wanted == start.map_values(
                |result: ReconcileResultModel| deferred_result(result, missing),
            ),
            next.deep_view() == wanted.take(i as int),
            deferred == exists|j: int|
                0 <= j < i && deferrable(#[trigger] start[j], missing),
        decreases results.len() - i,
    {
        assert(start[i as int] == results@[i as int].deep_view());
        let mut result = results[i].duplicate();
        if text_eq(result.action.as_str(), "claim_committed") && text_eq(
            result.status.as_str(),
            "blocked",
        ) && missing_ifnames.contains_key(&result.ifname) {
            assert(deferrable(start[i as int], missing));
            result.status = "deferred".to_owned();
            result.reason = Some("runtime_rebuild_required".to_owned());
            deferred = true;
        }
        let ghost before = next.deep_view();
        let ghost pushed = result.deep_view();
        next.push(result);
        assert(pushed == wanted[i as int]);
        assert(next.deep_view() =~= before.push(pushed));
        assert(wanted.take(i + 1) =~= wanted.take(i as int).push(wanted[i as int]));
        i += 1;
    }
    assert(wanted.take(i as int) =~= wanted);
    *results = next;
    deferred
}

/// The state of a domain whose data path has to be built anew.
pub open spec fn rebuild_state(domain: Seq<char>) -> NeutronDomainStatusModel {
    if domain == "acl"@ {
        domain_state(domain, "degraded"@, Some("runtime_rebuild_required"@), Some("bypass"@))
    } else {
        domain_state(domain, "blocked"@, Some("runtime_rebuild_required"@), None)
    }
}

/// The status of a port whose data path has to be built anew.
pub open spec fn rebuild_status(
    port: ManagedNeutronPortModel,
    generation: u64,
    desired_hash: Option<Seq<char>>,
) -> NeutronPortStatusModel {
    port_state(
        port.port_id,
        port.ifname,
        generation,
        desired_hash,
        port.managed_domains,
        "degraded"@,
        Some("runtime_rebuild_required"@),
        normal_domains(port.managed_domains).map_values(|domain: Seq<char>| rebuild_state(domain)),
    )
}

/// Makes the status of a port whose data path has to be built anew.
pub fn runtime_rebuild_port_status(
    port: &ManagedNeutronPort,
    generation: u64,
    desired_hash: Option<String>,
) -> (r: NeutronPortStatus)
    ensures
        r.deep_view() == rebuild_status(port.deep_view(), generation, desired_hash.deep_view()),
{
    let names = normalize_managed_domains(&port.managed_domains);
    let ghost models = names.deep_view();
    let ghost wanted = models.map_values(|domain: Seq<char>| rebuild_state(domain));
    let mut domains: Vec<NeutronDomainStatus> = Vec::new();
    let mut i: usize = 0;
    assert(domains.deep_view() =~= wanted.take(0));
    while i < names.len()
        invariant
            i <= names.len(),
            models == names.deep_view(),
            wanted == models.map_values(|domain: Seq<char>| rebuild_state(domain)),
            domains.deep_view() == wanted.take(i as int),
        decreases names.len() - i,
    {
        assert(models[i as int] == names@[i as int]@);
        let name = names[i].as_str();
        let state = if text_eq(name, "acl") {
            domain_status_with_action(
                name,
                "degraded",
                Some("runtime_rebuild_required".to_owned()),
                Some("bypass".to_owned()),
            )
        } else {
            domain_status(name, "blocked", Some("runtime_rebuild_required".to_owned()))
        };
        let ghost before = domains.deep_view();
        let ghost pushed = state.deep_view();
        domains.push(state);
        assert(pushed == wanted[i as int]);
        assert(domains.deep_view() =~= before.push(pushed));
        assert(wanted.take(i + 1) =~= wanted.take(i as int).push(wanted[i as int]));
        i += 1;
    }
    assert(wanted.take(i as int) =~= wanted);
    port_runtime_status(
        port.port_id.as_str(),
        port.ifname.as_str(),
        generation,
        desired_hash,
        port.managed_domains.duplicate(),
        "degraded",
        Some("runtime_rebuild_required".to_owned()),
        domains,
    )
}

/// True when a live port still waits for its data path.
pub open spec fn awaits_rebuild(
    runtime: NeutronRuntimeStateModel,
    live: Set<Seq<char>>,
    key: Seq<char>,
) -> bool {
    let port = runtime.ports[key];
    &&& runtime.ports.dom().contains(key)
    &&& live.contains(port.ifname)
    &&& match lookup(runtime.port_statuses, port.port_id) {
        None => true,
        Some(status) => is_text(status.reason, "runtime_rebuild_required"@),
    }
}

/// True when claiming the committed ports has to be tried again.
pub open spec fn retry_claim(runtime: NeutronRuntimeStateModel, live: Set<Seq<char>>) -> bool {
    &&& runtime.pending_generation is None
    &&& runtime.authority_state == "recovered_pending_full_resync_required"@
        || runtime.authority_state == "runtime_reconcile_requires_full_resync"@
    &&& exists|key: Seq<char>| #[trigger] awaits_rebuild(runtime, live, key)
}

/// Whether claiming the committed ports has to be tried again.
pub fn should_retry_committed_runtime_reconcile(
    runtime: &NeutronRuntimeState,
    live_ifnames: &OrderedMap<String, bool>,
) -> (r: bool)
    ensures
        r == retry_claim(runtime.deep_view(), live_ifnames.deep_view().dom()),
{
    let state = runtime.authority_state.as_str();
    if runtime.pending_generation.is_some() || !(text_eq(
        state,
        "recovered_pending_full_resync_required",
    ) || text_eq(state, "runtime_reconcile_requires_full_resync")) {
        return false;
    }
    let ghost model = runtime.deep_view();
    let ghost live = live_ifnames.deep_view().dom();
    let ghost keys = in_order::<String>(model.ports.dom());
    let n: usize = runtime.ports.len();
    let mut i: usize = 0;
    while i < n
        invariant
            i <= n,
            n == keys.len(),
            model == runtime.deep_view(),
            live == live_ifnames.deep_view().dom(),
            keys == in_order::<String>(runtime.ports.deep_view().dom()),
            model.pending_generation is None,
            model.authority_state == "recovered_pending_full_resync_required"@
                || model.authority_state == "runtime_reconcile_requires_full_resync"@,
            forall|j: int| 0 <= j < i ==> !awaits_rebuild(model, live, #[trigger] keys[j]),
        ensures
            i == n,
        decreases n - i,
    {
        let key = runtime.ports.key_at(i);
        let port = runtime.ports.value_at(i);
        let waits = live_ifnames.contains_key(&port.ifname) && match runtime.port_statuses.get(
            &port.port_id,
        ) {
            None => true,
            Some(status) => string_is(&status.reason, "runtime_rebuild_required"),
        };
        assert(waits == awaits_rebuild(model, live, keys[i as int]));
        if waits {
            return true;
        }
        i += 1;
    }
    proof {
        assert forall|key: Seq<char>| !#[trigger] awaits_rebuild(model, live, key) by {
            if model.ports.dom().contains(key) {
                assert(keys.contains(key));
                let j = choose|j: int| 0 <= j < keys.len() && keys[j] == key;
                assert(!awaits_rebuild(model, live, keys[j]));
            }
        }
    }
    false
}

/// A managed port without the record of its filtering.
pub open spec fn without_acl_hash(port: ManagedNeutronPortModel) -> ManagedNeutronPortModel {
    ManagedNeutronPortModel {
        domain_desired_hashes: port.domain_desired_hashes.remove("acl"@),
        ..port
    }
}

/// The status of a port whose filtering was taken over from before a restart.
pub open spec fn restarted_status(status: NeutronPortStatusModel) -> NeutronPortStatusModel {
    NeutronPortStatusModel {
        status: "degraded"@,
        reason: Some("acl_restart_replay_requires_resync"@),
        domains: values_in_order::<String, NeutronDomainStatusModel>(
            domain_map(status.domains).insert(
                "attach"@,
                domain_state("attach"@, "ready"@, None, None),
            ).insert(
                "acl"@,
                domain_state(
                    "acl"@,
                    "degraded"@,
                    Some("acl_restart_replay_requires_resync"@),
                    Some("unchanged"@),
                ),
            ),
        ),
        ..status
    }
}

/// True when the filtering of a port was taken over from before a restart.
pub open spec fn restarted(
    runtime: NeutronRuntimeStateModel,
    port: ManagedNeutronPortModel,
) -> bool {
    &&& manages_acl(port.managed_domains)
    &&& runtime.port_statuses.dom().contains(port.port_id)
    &&& runtime.ports.dom().contains(port.port_id)
}

/// The runtime with one port that was taken over.
pub open spec fn restart_port(
    runtime: NeutronRuntimeStateModel,
    port: ManagedNeutronPortModel,
) -> NeutronRuntimeStateModel {
    if restarted(runtime, port) {
        NeutronRuntimeStateModel {
            ports: runtime.ports.insert(
                port.port_id,
                without_acl_hash(runtime.ports[port.port_id]),
            ),
            port_statuses: runtime.port_statuses.insert(
                port.port_id,
                restarted_status(runtime.port_statuses[port.port_id]),
            ),
            ..runtime
        }
    } else {
        runtime
    }
}

/// The runtime with the first `n` ports that were taken over.
pub open spec fn restart_ports(
    runtime: NeutronRuntimeStateModel,
    ports: Seq<ManagedNeutronPortModel>,
    n: int,
) -> NeutronRuntimeStateModel
    decreases n,
{
    if n <= 0 {
        runtime
    } else {
        restart_port(restart_ports(runtime, ports, n - 1), ports[n - 1])
    }
}

/// True when the filtering of one of the first `n` ports was taken over.
pub open spec fn restarted_among(
    runtime: NeutronRuntimeStateModel,
    ports: Seq<ManagedNeutronPortModel>,
    n: int,
) -> bool
    decreases n,
{
    n > 0 && (restarted_among(runtime, ports, n - 1) || restarted(
        restart_ports(runtime, ports, n - 1),
        ports[n - 1],
    ))
}

/// The runtime in which filtering that was taken over counts as unproven.
pub open spec fn after_restart(
    runtime: NeutronRuntimeStateModel,
    ports: Seq<ManagedNeutronPortModel>,
) -> NeutronRuntimeStateModel {
    let next = restart_ports(runtime, ports, ports.len() as int);
    if restarted_among(runtime, ports, ports.len() as int) && runtime.pending_generation is None {
        NeutronRuntimeStateModel {
            authority_state: "runtime_reconcile_requires_full_resync"@,
            wal_status: "runtime_reconciled_acl_resync_required"@,
            ..next
        }
    } else {
        next
    }
}

fn mark_restarted(status: &NeutronPortStatus) -> (r: NeutronPortStatus)
    ensures
        r.deep_view() == restarted_status(status.deep_view()),
{
    let mut domains = collect_domain_map(&status.domains);
    domains.insert("attach".to_owned(), domain_status("attach", "ready", None));
    domains.insert(
        "acl".to_owned(),
        domain_status_with_action(
            "acl",
            "degraded",
            Some("acl_restart_replay_requires_resync".to_owned()),
            Some("unchanged".to_owned()),
        ),
    );
    let mut next = status.duplicate();
    next.status = "degraded".to_owned();
    next.reason = Some("acl_restart_replay_requires_resync".to_owned());
    next.domains = domains.values();
    next
}

fn drop_acl_hash(port: &ManagedNeutronPort) -> (r: ManagedNeutronPort)
    ensures
        r.deep_view() == without_acl_hash(port.deep_view()),
{
    let mut next = port.duplicate();
    let mut hashes = port.domain_desired_hashes.duplicate();
    let name = "acl".to_owned();
    hashes.remove(&name);
    next.domain_desired_hashes = hashes;
    next
}

proof fn lemma_restart_keeps(
    runtime: NeutronRuntimeStateModel,
    ports: Seq<ManagedNeutronPortModel>,
    n: int,
)
    ensures
        restart_ports(runtime, ports, n) == (NeutronRuntimeStateModel {
            ports: restart_ports(runtime, ports, n).ports,
            port_statuses: restart_ports(runtime, ports, n).port_statuses,
            ..runtime
        }),
    decreases n,
{
    if n > 0 {
        lemma_restart_keeps(runtime, ports, n - 1);
    }
}

/// Marks filtering that was taken over from before a restart as unproven.
pub fn invalidate_restarted_acl_runtime(
    runtime: &mut NeutronRuntimeState,
    successfully_claimed_ports: &Vec<ManagedNeutronPort>,
) -> (r: bool)
    ensures
        final(runtime).deep_view() == after_restart(
            old(runtime).deep_view(),
            successfully_claimed_ports.deep_view(),
        ),
        r == restarted_among(
            old(runtime).deep_view(),
            successfully_claimed_ports.deep_view(),
            successfully_claimed_ports.len() as int,
        ),
{
    let ghost models = successfully_claimed_ports.deep_view();
    let ghost start = runtime.deep_view();
    let mut invalidated = false;
    let mut i: usize = 0;
    while i < successfully_claimed_ports.len()
        invariant
            i <= successfully_claimed_ports.len(),
            models == successfully_claimed_ports.deep_view(),
            runtime.deep_view() == restart_ports(start, models, i as int),
            invalidated == restarted_among(start, models, i as int),
        decreases successfully_claimed_ports.len() - i,
    {
        let port = &successfully_claimed_ports[i];
        assert(models[i as int] == port.deep_view());
        let marked = if domains_manage_acl(&port.managed_domains) {
            match (runtime.ports.get(&port.port_id), runtime.port_statuses.get(&port.port_id)) {
                (Some(managed), Some(status)) => Some(
                    (drop_acl_hash(managed), mark_restarted(status)),
                ),
                _ => None,
            }
        } else {
            None
        };
        if let Some((managed, status)) = marked {
            runtime.ports.insert(port.port_id.duplicate(), managed);
            runtime.port_statuses.insert(port.port_id.duplicate(), status);
            invalidated = true;
        }
        i += 1;
    }
    proof {
        lemma_restart_keeps(start, models, i as int);
    }
    if invalidated && runtime.pending_generation.is_none() {
        runtime.authority_state = "runtime_reconcile_requires_full_resync".to_owned();
        runtime.wal_status = "runtime_reconciled_acl_resync_required".to_owned();
    }
    invalidated
}

/// What came of claiming an interface, from the `i`-th result on.
pub open spec fn claim_of(
    results: Seq<ReconcileResultModel>,
    ifname: Seq<char>,
    i: int,
) -> Option<ReconcileResultModel>
    decreases results.len() - i,
{
    if i < 0 || i >= results.len() {
        None
    } else if results[i].ifname == ifname && results[i].action == "claim_committed"@ {
        Some(results[i])
    } else {
        claim_of(results, ifname, i + 1)
    }
}

/// The status word of a port by what came of claiming it.
pub open spec fn claim_word(result: ReconcileResultModel) -> Seq<char> {
    if result.status == "ready"@ {
        "ready"@
    } else {
        "blocked"@
    }
}

/// The status of a port by what came of claiming it.
pub open spec fn claim_status(
    port: ManagedNeutronPortModel,
    generation: u64,
    desired_hash: Option<Seq<char>>,
    result: ReconcileResultModel,
) -> NeutronPortStatusModel {
    port_state(
        port.port_id,
        port.ifname,
        generation,
        desired_hash,
        port.managed_domains,
        claim_word(result),
        result.reason,
        states_of(runtime_domains(port.managed_domains), claim_word(result), result.reason),
    )
}

/// The runtime with what came of claiming one port.
pub open spec fn claim_port(
    runtime: NeutronRuntimeStateModel,
    port: ManagedNeutronPortModel,
    generation: u64,
    desired_hash: Option<Seq<char>>,
    results: Seq<ReconcileResultModel>,
) -> NeutronRuntimeStateModel {
    match claim_of(results, port.ifname, 0) {
        None => runtime,
        Some(result) => if result.status == "deferred"@ {
            NeutronRuntimeStateModel {
                ports: if runtime.ports.dom().contains(port.port_id) {
                    runtime.ports.insert(
                        port.port_id,
                        ManagedNeutronPortModel {
                            ifindex: None,
                            ..without_acl_hash(runtime.ports[port.port_id])
                        },
                    )
                } else {
                    runtime.ports
                },
                port_statuses: runtime.port_statuses.insert(
                    port.port_id,
                    rebuild_status(port, generation, desired_hash),
                ),
                ..runtime
            }
        } else {
            NeutronRuntimeStateModel {
                port_statuses: runtime.port_statuses.insert(
                    port.port_id,
                    claim_status(port, generation, desired_hash, result),
                ),
                ..runtime
            }
        },
    }
}

/// The runtime with what came of claiming the first `n` ports.
pub open spec fn claim_ports(
    runtime: NeutronRuntimeStateModel,
    ports: Seq<ManagedNeutronPortModel>,
    generation: u64,
    desired_hash: Option<Seq<char>>,
    results: Seq<ReconcileResultModel>,
    n: int,
) -> NeutronRuntimeStateModel
    decreases n,
{
    if n <= 0 {
        runtime
    } else {
        claim_port(
            claim_ports(runtime, ports, generation, desired_hash, results, n - 1),
            ports[n - 1],
            generation,
            desired_hash,
            results,
        )
    }
}

/// True when a port was claimed.
pub open spec fn claimed(port: ManagedNeutronPortModel, results: Seq<ReconcileResultModel>) -> bool {
    match claim_of(results, port.ifname, 0) {
        Some(result) => result.status == "ready"@,
        None => false,
    }
}

/// The runtime after the committed ports were claimed.
pub open spec fn reconciled_runtime(
    previous: NeutronRuntimeStateModel,
    ports: Seq<ManagedNeutronPortModel>,
    generation: u64,
    desired_hash: Option<Seq<char>>,
    results: Seq<ReconcileResultModel>,
    missing: bool,
) -> NeutronRuntimeStateModel {
    let claims = claim_ports(
        previous,
        ports,
        generation,
        desired_hash,
        results,
        ports.len() as int,
    );
    let ready = ports.filter(|port: ManagedNeutronPortModel| claimed(port, results));
    let next = after_restart(claims, ready);
    let resync = restarted_among(claims, ready, ready.len() as int) || missing;
    if exists|i: int| 0 <= i < results.len() && (#[trigger] results[i]).status == "blocked"@ {
        NeutronRuntimeStateModel {
            authority_state: "runtime_degraded"@,
            wal_status: "runtime_reconcile_degraded"@,
            ..next
        }
    } else if resync && next.pending_generation is None {
        NeutronRuntimeStateModel {
            authority_state: "runtime_reconcile_requires_full_resync"@,
            wal_status: "runtime_reconciled_acl_resync_required"@,
            ..next
        }
    } else if next.pending_generation is None {
        NeutronRuntimeStateModel {
            authority_state: "ready"@,
            wal_status: "runtime_reconciled"@,
            ..next
        }
    } else if next.wal_status != "intent_recovered"@ {
        NeutronRuntimeStateModel { wal_status: "runtime_reconciled"@, ..next }
    } else {
        next
    }
}

fn find_claim<'a>(results: &'a Vec<RuntimeReconcileResult>, ifname: &str) -> (r: Option<
    &'a RuntimeReconcileResult,
>)
    ensures
        r.deep_view() == claim_of(results.deep_view(), ifname@, 0),
{
    let ghost models = results.deep_view();
    let mut i: usize = 0;
    while i < results.len()
        invariant
            i <= results.len(),
            models == results.deep_view(),
            claim_of(models, ifname@, i as int) == claim_of(models, ifname@, 0),
        decreases results.len() - i,
    {
        assert(models[i as int] == results@[i as int].deep_view());
        if text_eq(results[i].ifname.as_str(), ifname) && text_eq(
            results[i].action.as_str(),
            "claim_committed",
        ) {
            return Some(&results[i]);
        }
        i += 1;
    }
    None
}

fn any_blocked(results: &Vec<RuntimeReconcileResult>) -> (r: bool)
    ensures
        r == exists|i: int|
            0 <= i < results.deep_view().len() && (#[trigger] results.deep_view()[i]).status
                == "blocked"@,
{
    let ghost models = results.deep_view();
    let mut i: usize = 0;
    while i < results.len()
        invariant
            i <= results.len(),
            models == results.deep_view(),
            forall|j: int| 0 <= j < i ==> (#[trigger] models[j]).status != "blocked"@,
        ensures
            i == results.len(),
        decreases results.len() - i,
    {
        assert(models[i as int] == results@[i as int].deep_view());
        if text_eq(results[i].status.as_str(), "blocked") {
            return true;
        }
        i += 1;
    }
    false
}

fn apply_claim(
    runtime: &mut NeutronRuntimeState,
    port: &ManagedNeutronPort,
    generation: u64,
    desired_hash: &Option<String>,
    results: &Vec<RuntimeReconcileResult>,
) -> (r: bool)
    ensures
        final(runtime).deep_view() == claim_port(
            old(runtime).deep_view(),
            port.deep_view(),
            generation,
            desired_hash.deep_view(),
            results.deep_view(),
        ),
        r == (claimed(port.deep_view(), results.deep_view()) && claim_of(
            results.deep_view(),
            port.deep_view().ifname,
            0,
        )->0.status != "deferred"@),
{
    let result = match find_claim(results, port.ifname.as_str()) {
        Some(result) => result,
        None => {
            return false;
        },
    };
    if text_eq(result.status.as_str(), "deferred") {
        let reset = match runtime.ports.get(&port.port_id) {
            Some(managed) => {
                let mut next = drop_acl_hash(managed);
                next.ifindex = None;
                Some(next)
            },
            None => None,
        };
        if let Some(managed) = reset {
            runtime.ports.insert(port.port_id.duplicate(), managed);
        }
        runtime.port_statuses.insert(
            port.port_id.duplicate(),
            runtime_rebuild_port_status(port, generation, desired_hash.duplicate()),
        );
        return false;
    }
    let ready = text_eq(result.status.as_str(), "ready");
    let word = if ready {
        "ready"
    } else {
        "blocked"
    };
    runtime.port_statuses.insert(
        port.port_id.duplicate(),
        port_runtime_status(
            port.port_id.as_str(),
            port.ifname.as_str(),
            generation,
            desired_hash.duplicate(),
            port.managed_domains.duplicate(),
            word,
            result.reason.duplicate(),
            runtime_domain_statuses_for(&port.managed_domains, word, result.reason.duplicate()),
        ),
    );
    ready
}

/// Makes the runtime after the committed ports were claimed.
pub fn project_committed_runtime_reconcile(
    previous_runtime: &NeutronRuntimeState,
    ports: &Vec<ManagedNeutronPort>,
    generation: u64,
    desired_hash: Option<String>,
    results: &Vec<RuntimeReconcileResult>,
    missing_runtime_requires_full_resync: bool,
) -> (r: Option<NeutronRuntimeState>)
    ensures
        r.deep_view() == if results.len() == 0 {
            None
        } else {
            Some(
                reconciled_runtime(
                    previous_runtime.deep_view(),
                    ports.deep_view(),
                    generation,
                    desired_hash.deep_view(),
                    results.deep_view(),
                    missing_runtime_requires_full_resync,
                ),
            )
        },
{
    if results.len() == 0 {
        return None;
    }
    let ghost start = previous_runtime.deep_view();
    let ghost models = ports.deep_view();
    let ghost hash = desired_hash.deep_view();
    let ghost p = |port: ManagedNeutronPortModel| claimed(port, results.deep_view());
    let mut next = previous_runtime.duplicate();
    let mut ready: Vec<ManagedNeutronPort> = Vec::new();
    let degraded = any_blocked(results);
    let mut i: usize = 0;
    assert(ready.deep_view() =~= models.take(0).filter(p)) by {
        reveal(Seq::filter);
    }
    while i < ports.len()
        invariant
            i <= ports.len(),
            models == ports.deep_view(),
            hash == desired_hash.deep_view(),
            p == (|port: ManagedNeutronPortModel| claimed(port, results.deep_view())),
            next.deep_view() == claim_ports(
                start,
                models,
                generation,
                hash,
                results.deep_view(),
                i as int,
            ),
            ready.deep_view() == models.take(i as int).filter(p),
        decreases ports.len() - i,
    {
        let port = &ports[i];
        assert(models[i as int] == port.deep_view());
        proof {
            crate::ordered::lemma_filter_step(models, p, i as int);
            reveal_strlit("ready");
            reveal_strlit("deferred");
        }
        let claimed_now = apply_claim(&mut next, port, generation, &desired_hash, results);
        assert("ready"@.len() != "deferred"@.len());
        if claimed_now {
            let ghost before = ready.deep_view();
            let kept = port.duplicate();
            ready.push(kept);
            assert(ready.deep_view() =~= before.push(kept.deep_view()));
        }
        i += 1;
    }
    assert(models.take(i as int) =~= models);
    let restarted = invalidate_restarted_acl_runtime(&mut next, &ready);
    if degraded {
        next.authority_state = "runtime_degraded".to_owned();
        next.wal_status = "runtime_reconcile_degraded".to_owned();
    } else if (restarted || missing_runtime_requires_full_resync)
        && next.pending_generation.is_none() {
        next.authority_state = "runtime_reconcile_requires_full_resync".to_owned();
        next.wal_status = "runtime_reconciled_acl_resync_required".to_owned();
    } else if next.pending_generation.is_none() {
        next.authority_state = "ready".to_owned();
        next.wal_status = "runtime_reconciled".to_owned();
    } else if !text_eq(next.wal_status.as_str(), "intent_recovered") {
        next.wal_status = "runtime_reconciled".to_owned();
    }
    Some(next)
}

proof fn lemma_domain_map_finite(domains: Seq<NeutronDomainStatusModel>, n: int)
    ensures
        domains_by_name(domains, n).dom().finite(),
    decreases n,
{
    if n > 0 {
        lemma_domain_map_finite(domains, n - 1);
    }
}

proof fn lemma_loss_noted(status: NeutronPortStatusModel)
    ensures
        loss_noted(lost_status(status)),
{
    let domains = domain_map(status.domains).insert("acl"@, lost_acl_state());
    lemma_domain_map_finite(status.domains, status.domains.len() as int);
    lemma_in_order::<String>(domains.dom());
    let keys = in_order::<String>(domains.dom());
    assert(domains.dom().contains("acl"@));
    assert(keys.contains("acl"@));
    let i = choose|i: int| 0 <= i < keys.len() && keys[i] == "acl"@;
    assert(lost_status(status).domains[i] == lost_acl_state());
}

proof fn lemma_losses_noted(
    statuses: Map<Seq<char>, NeutronPortStatusModel>,
    ports: Seq<ManagedNeutronPortModel>,
    health: Map<Seq<char>, HealthModel>,
    n: int,
)
    requires
        n <= ports.len(),
    ensures
        forall|j: int|
            0 <= j < n ==> !loss_to_note(
                statuses_after_loss(statuses, ports, health, n),
                #[trigger] ports[j],
                health,
            ),
    decreases n,
{
    if n > 0 {
        lemma_losses_noted(statuses, ports, health, n - 1);
        let before = statuses_after_loss(statuses, ports, health, n - 1);
        let port = ports[n - 1];
        if loss_to_note(before, port, health) {
            lemma_loss_noted(before[port.port_id]);
        }
    }
}

proof fn lemma_nothing_to_note(
    statuses: Map<Seq<char>, NeutronPortStatusModel>,
    ports: Seq<ManagedNeutronPortModel>,
    health: Map<Seq<char>, HealthModel>,
    n: int,
)
    requires
        n <= ports.len(),
        forall|j: int|
            0 <= j < ports.len() ==> !loss_to_note(statuses, #[trigger] ports[j], health),
    ensures
        statuses_after_loss(statuses, ports, health, n) == statuses,
        !loss_among(statuses, ports, health, n),
    decreases n,
{
    if n > 0 {
        lemma_nothing_to_note(statuses, ports, health, n - 1);
    }
}

/// A lost link is noted once: seeing the same health again changes nothing.
pub proof fn link_loss_is_noted_once(
    runtime: NeutronRuntimeStateModel,
    health: Seq<HealthModel>,
)
    ensures
        !loss_projected(after_link_loss(runtime, health), health),
        after_link_loss(after_link_loss(runtime, health), health) == after_link_loss(
            runtime,
            health,
        ),
{
    if loss_projected(runtime, health) {
        let ports = values_in_order::<String, ManagedNeutronPortModel>(runtime.ports);
        let by_name = health_by_name(health, health.len() as int);
        let statuses = after_link_loss(runtime, health).port_statuses;
        lemma_losses_noted(runtime.port_statuses, ports, by_name, ports.len() as int);
        lemma_nothing_to_note(statuses, ports, by_name, ports.len() as int);
    }
}

/// While a snapshot is pending, the loss of a link changes nothing.
pub proof fn link_loss_waits_for_pending(
    runtime: NeutronRuntimeStateModel,
    health: Seq<HealthModel>,
)
    requires
        runtime.pending_generation is Some,
    ensures
        after_link_loss(runtime, health) == runtime,
{
}

proof fn lemma_loss_keeps_domain(
    statuses: Map<Seq<char>, NeutronPortStatusModel>,
    ports: Seq<ManagedNeutronPortModel>,
    health: Map<Seq<char>, HealthModel>,
    n: int,
)
    ensures
        statuses_after_loss(statuses, ports, health, n).dom() == statuses.dom(),
    decreases n,
{
    if n > 0 {
        lemma_loss_keeps_domain(statuses, ports, health, n - 1);
        assert(statuses_after_loss(statuses, ports, health, n).dom() =~= statuses.dom());
    }
}

/// Noting lost links keeps the ports, the generations and the hashes, and gives no port a status
/// that had none.
pub proof fn link_loss_keeps_what_is_committed(
    runtime: NeutronRuntimeStateModel,
    health: Seq<HealthModel>,
)
    ensures
        ({
            let next = after_link_loss(runtime, health);
            &&& next.ports == runtime.ports
            &&& next.port_statuses.dom() == runtime.port_statuses.dom()
            &&& next.accepted_generation == runtime.accepted_generation
            &&& next.applied_generation == runtime.applied_generation
            &&& next.pending_generation == runtime.pending_generation
            &&& next.desired_hash == runtime.desired_hash
            &&& next.applied_desired_hash == runtime.applied_desired_hash
            &&& next.recovery_cause == runtime.recovery_cause
            &&& next.wal_replay_failures == runtime.wal_replay_failures
        }),
{
    let ports = values_in_order::<String, ManagedNeutronPortModel>(runtime.ports);
    lemma_loss_keeps_domain(
        runtime.port_statuses,
        ports,
        health_by_name(health, health.len() as int),
        ports.len() as int,
    );
}

proof fn lemma_claims_keep(
    runtime: NeutronRuntimeStateModel,
    ports: Seq<ManagedNeutronPortModel>,
    generation: u64,
    desired_hash: Option<Seq<char>>,
    results: Seq<ReconcileResultModel>,
    n: int,
)
    ensures
        ({
            let next = claim_ports(runtime, ports, generation, desired_hash, results, n);
            &&& next.ports.dom() == runtime.ports.dom()
            &&& next == (NeutronRuntimeStateModel {
                ports: next.ports,
                port_statuses: next.port_statuses,
                ..runtime
            })
        }),
    decreases n,
{
    if n > 0 {
        lemma_claims_keep(runtime, ports, generation, desired_hash, results, n - 1);
        let next = claim_ports(runtime, ports, generation, desired_hash, results, n);
        assert(next.ports.dom() =~= runtime.ports.dom());
    }
}

proof fn lemma_restart_keeps_ports(
    runtime: NeutronRuntimeStateModel,
    ports: Seq<ManagedNeutronPortModel>,
    n: int,
)
    ensures
        restart_ports(runtime, ports, n).ports.dom() == runtime.ports.dom(),
    decreases n,
{
    if n > 0 {
        lemma_restart_keeps_ports(runtime, ports, n - 1);
        assert(restart_ports(runtime, ports, n).ports.dom() =~= runtime.ports.dom());
    }
}

/// Claiming the committed ports loses none of them and leaves the generations and hashes as they
/// are.
pub proof fn claiming_keeps_what_is_committed(
    previous: NeutronRuntimeStateModel,
    ports: Seq<ManagedNeutronPortModel>,
    generation: u64,
    desired_hash: Option<Seq<char>>,
    results: Seq<ReconcileResultModel>,
    missing: bool,
)
    ensures
        ({
            let next = reconciled_runtime(
                previous,
                ports,
                generation,
                desired_hash,
                results,
                missing,
            );
            &&& next.ports.dom() == previous.ports.dom()
            &&& next.accepted_generation == previous.accepted_generation
            &&& next.applied_generation == previous.applied_generation
            &&& next.pending_generation == previous.pending_generation
            &&& next.desired_hash == previous.desired_hash
            &&& next.applied_desired_hash == previous.applied_desired_hash
            &&& next.recovery_cause == previous.recovery_cause
        }),
{
    let claims = claim_ports(
        previous,
        ports,
        generation,
        desired_hash,
        results,
        ports.len() as int,
    );
    let ready = ports.filter(|port: ManagedNeutronPortModel| claimed(port, results));
    lemma_claims_keep(previous, ports, generation, desired_hash, results, ports.len() as int);
    lemma_restart_keeps(claims, ready, ready.len() as int);
    lemma_restart_keeps_ports(claims, ready, ready.len() as int);
}

} // verus!
