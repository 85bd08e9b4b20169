//! Applying a snapshot, port by port.

use crate::domains::{
    domains_manage_acl, managed_port, managed_port_from_snapshot, manages_acl, normal_domains,
    port_manages_acl, required_neutron_publication_mode, unsupported_neutron_managed_domains,
    ManagedAclPublicationMode,
};
use crate::host::{HostOutcome, OutcomeModel};
use crate::inventory::lookup;
use crate::model::{
    ManagedNeutronPort, ManagedNeutronPortModel, NeutronDomainStatusModel, NeutronPortApplyResult,
    NeutronPortApplyResultModel, NeutronPortSnapshot, NeutronPortSnapshotModel, NeutronPortStatus,
    NeutronPortStatusModel, NeutronRuntimeState, NeutronRuntimeStateModel,
};
use crate::ordered::{OrderedMap, Value};
use crate::plan::{
    SnapshotApplyTransaction, SnapshotApplyTransactionModel, SnapshotPlan, SnapshotPlanModel,
};
use crate::reconcile::{
    blocked_by_unimplemented_domains, unimplemented, unimplemented_text, DomainReconcileResult,
    DomainResultModel,
};
use crate::scope::ApplyScope;
use crate::status::{
    domain_statuses_for, port_result, port_runtime_status, port_state, states_of,
    successful_port_status, transaction_result, worst_state,
};
use crate::text::text_eq;
use crate::transaction::{
    build_snapshot_commit_runtime, can_skip_neutron_domain_reconcile, committed, may_skip,
    port_status_seed_for_scope, status_seed, ManagedProjectionHealth,
};
use vstd::prelude::*;
use vstd::string::*;

verus! {

/// One piece of work of a snapshot.
#[derive(Debug, PartialEq, Eq)]
pub enum PortWork {
    Detach(ManagedNeutronPort),
    Update(NeutronPortSnapshot),
    Attach(NeutronPortSnapshot),
}

/// The model of [`PortWork`].
pub enum WorkModel {
    Detach(ManagedNeutronPortModel),
    Update(NeutronPortSnapshotModel),
    Attach(NeutronPortSnapshotModel),
}

impl WorkModel {
    /// The port that the work is about.
    pub open spec fn port_id(self) -> Seq<char> {
        match self {
            WorkModel::Detach(port) => port.port_id,
            WorkModel::Update(port) => port.port_id,
            WorkModel::Attach(port) => port.port_id,
        }
    }
}

impl DeepView for PortWork {
    type V = WorkModel;

    open spec fn deep_view(&self) -> WorkModel {
        match self {
            PortWork::Detach(port) => WorkModel::Detach(port.deep_view()),
            PortWork::Update(port) => WorkModel::Update(port.deep_view()),
            PortWork::Attach(port) => WorkModel::Attach(port.deep_view()),
        }
    }
}

impl Value for PortWork {
    fn duplicate(&self) -> (r: Self) {
        match self {
            PortWork::Detach(port) => PortWork::Detach(port.duplicate()),
            PortWork::Update(port) => PortWork::Update(port.duplicate()),
            PortWork::Attach(port) => PortWork::Attach(port.duplicate()),
        }
    }

    fn same(&self, other: &Self) -> (r: bool) {
        match (self, other) {
            (PortWork::Detach(a), PortWork::Detach(b)) => a.same(b),
            (PortWork::Update(a), PortWork::Update(b)) => a.same(b),
            (PortWork::Attach(a), PortWork::Attach(b)) => a.same(b),
            _ => false,
        }
    }
}

/// What becomes of the record of a port.
#[derive(Debug, PartialEq, Eq)]
pub enum PortChange {
    Keep,
    Remove,
    Put(ManagedNeutronPort),
}

/// The model of [`PortChange`].
pub enum ChangeModel {
    Keep,
    Remove,
    Put(ManagedNeutronPortModel),
}

impl DeepView for PortChange {
    type V = ChangeModel;

    open spec fn deep_view(&self) -> ChangeModel {
        match self {
            PortChange::Keep => ChangeModel::Keep,
            PortChange::Remove => ChangeModel::Remove,
            PortChange::Put(port) => ChangeModel::Put(port.deep_view()),
        }
    }
}

impl Value for PortChange {
    fn duplicate(&self) -> (r: Self) {
        match self {
            PortChange::Keep => PortChange::Keep,
            PortChange::Remove => PortChange::Remove,
            PortChange::Put(port) => PortChange::Put(port.duplicate()),
        }
    }

    fn same(&self, other: &Self) -> (r: bool) {
        match (self, other) {
            (PortChange::Keep, PortChange::Keep) => true,
            (PortChange::Remove, PortChange::Remove) => true,
            (PortChange::Put(a), PortChange::Put(b)) => a.same(b),
            _ => false,
        }
    }
}

/// What came of the steps of bringing one port about.
#[derive(Debug, PartialEq, Eq)]
pub struct PortHistory {
    pub purged: Option<HostOutcome>,
    pub detached: Option<HostOutcome>,
    pub attached: Option<HostOutcome>,
    pub fault: Option<HostOutcome>,
    pub health: Option<Option<ManagedProjectionHealth>>,
    pub reused: Option<bool>,
    pub reconciled: Option<DomainReconcileResult>,
    pub confirmed: Option<bool>,
}

/// The model of [`PortHistory`].
#[verifier::ext_equal]
pub struct PortHistoryModel {
    pub purged: Option<OutcomeModel>,
    pub detached: Option<OutcomeModel>,
    pub attached: Option<OutcomeModel>,
    pub fault: Option<OutcomeModel>,
    pub health: Option<Option<ManagedProjectionHealth>>,
    pub reused: Option<bool>,
    pub reconciled: Option<DomainResultModel>,
    pub confirmed: Option<bool>,
}

impl DeepView for PortHistory {
    type V = PortHistoryModel;

    open spec fn deep_view(&self) -> PortHistoryModel {
        PortHistoryModel {
            purged: self.purged.deep_view(),
            detached: self.detached.deep_view(),
            attached: self.attached.deep_view(),
            fault: self.fault.deep_view(),
            health: self.health.deep_view(),
            reused: self.reused.deep_view(),
            reconciled: self.reconciled.deep_view(),
            confirmed: self.confirmed.deep_view(),
        }
    }
}

impl Value for PortHistory {
    fn duplicate(&self) -> (r: Self) {
        PortHistory {
            purged: self.purged.duplicate(),
            detached: self.detached.duplicate(),
            attached: self.attached.duplicate(),
            fault: self.fault.duplicate(),
            health: self.health.duplicate(),
            reused: self.reused.duplicate(),
            reconciled: self.reconciled.duplicate(),
            confirmed: self.confirmed.duplicate(),
        }
    }

    fn same(&self, other: &Self) -> (r: bool) {
        self.purged.same(&other.purged)
            && self.detached.same(&other.detached)
            && self.attached.same(&other.attached)
            && self.fault.same(&other.fault)
            && self.health.same(&other.health)
            && self.reused.same(&other.reused)
            && self.reconciled.same(&other.reconciled)
            && self.confirmed.same(&other.confirmed)
    }
}

impl Clone for PortHistory {
    fn clone(&self) -> (r: Self)
        ensures
            r.deep_view() == self.deep_view(),
    {
        self.duplicate()
    }
}

/// A claim on an interface, and what must hold of the interface for it.
#[derive(Debug, PartialEq, Eq)]
pub struct AuthorityMark {
    pub ifname: String,
    pub port_id: String,
    pub managed_domains: Vec<String>,
    pub generation: u64,
    pub publication_mode: ManagedAclPublicationMode,
    pub projection_health: Option<ManagedProjectionHealth>,
}

/// The model of [`AuthorityMark`].
#[verifier::ext_equal]
pub struct AuthorityMarkModel {
    pub ifname: Seq<char>,
    pub port_id: Seq<char>,
    pub managed_domains: Seq<Seq<char>>,
    pub generation: u64,
    pub publication_mode: ManagedAclPublicationMode,
    pub projection_health: Option<ManagedProjectionHealth>,
}

impl DeepView for AuthorityMark {
    type V = AuthorityMarkModel;

    open spec fn deep_view(&self) -> AuthorityMarkModel {
        AuthorityMarkModel {
            ifname: self.ifname.deep_view(),
            port_id: self.port_id.deep_view(),
            managed_domains: self.managed_domains.deep_view(),
            generation: self.generation,
            publication_mode: self.publication_mode.deep_view(),
            projection_health: self.projection_health.deep_view(),
        }
    }
}

impl Value for AuthorityMark {
    fn duplicate(&self) -> (r: Self) {
        AuthorityMark {
            ifname: self.ifname.duplicate(),
            port_id: self.port_id.duplicate(),
            managed_domains: self.managed_domains.duplicate(),
            generation: self.generation,
            publication_mode: self.publication_mode.duplicate(),
            projection_health: self.projection_health.duplicate(),
        }
    }

    fn same(&self, other: &Self) -> (r: bool) {
        self.ifname.same(&other.ifname)
            && self.port_id.same(&other.port_id)
            && self.managed_domains.same(&other.managed_domains)
            && self.generation == other.generation
            && self.publication_mode.same(&other.publication_mode)
            && self.projection_health.same(&other.projection_health)
    }
}

impl Clone for AuthorityMark {
    fn clone(&self) -> (r: Self)
        ensures
            r.deep_view() == self.deep_view(),
    {
        self.duplicate()
    }
}

/// What bringing one port about came to.
#[derive(Debug, PartialEq, Eq)]
pub struct PortApplyOutcome {
    pub change: PortChange,
    pub status: Option<NeutronPortStatus>,
    pub result: NeutronPortApplyResult,
}

/// The model of [`PortApplyOutcome`].
#[verifier::ext_equal]
pub struct PortOutcomeModel {
    pub change: ChangeModel,
    pub status: Option<NeutronPortStatusModel>,
    pub result: NeutronPortApplyResultModel,
}

impl DeepView for PortApplyOutcome {
    type V = PortOutcomeModel;

    open spec fn deep_view(&self) -> PortOutcomeModel {
        PortOutcomeModel {
            change: self.change.deep_view(),
            status: self.status.deep_view(),
            result: self.result.deep_view(),
        }
    }
}

impl Value for PortApplyOutcome {
    fn duplicate(&self) -> (r: Self) {
        PortApplyOutcome {
            change: self.change.duplicate(),
            status: self.status.duplicate(),
            result: self.result.duplicate(),
        }
    }

    fn same(&self, other: &Self) -> (r: bool) {
        self.change.same(&other.change)
            && self.status.same(&other.status)
            && self.result.same(&other.result)
    }
}

impl Clone for PortApplyOutcome {
    fn clone(&self) -> (r: Self)
        ensures
            r.deep_view() == self.deep_view(),
    {
        self.duplicate()
    }
}

/// What applying a snapshot came to.
#[derive(Debug, PartialEq, Eq)]
pub struct SnapshotRuntimeApplyOutcome {
    pub next_runtime: NeutronRuntimeState,
    pub previous_applied_generation: u64,
    pub results: Vec<NeutronPortApplyResult>,
    pub has_error: bool,
}

/// The model of [`SnapshotRuntimeApplyOutcome`].
#[verifier::ext_equal]
pub struct ApplyOutcomeModel {
    pub next_runtime: NeutronRuntimeStateModel,
    pub previous_applied_generation: u64,
    pub results: Seq<NeutronPortApplyResultModel>,
    pub has_error: bool,
}

impl DeepView for SnapshotRuntimeApplyOutcome {
    type V = ApplyOutcomeModel;

    open spec fn deep_view(&self) -> ApplyOutcomeModel {
        ApplyOutcomeModel {
            next_runtime: self.next_runtime.deep_view(),
            previous_applied_generation: self.previous_applied_generation,
            results: self.results.deep_view(),
            has_error: self.has_error,
        }
    }
}

impl Value for SnapshotRuntimeApplyOutcome {
    fn duplicate(&self) -> (r: Self) {
        SnapshotRuntimeApplyOutcome {
            next_runtime: self.next_runtime.duplicate(),
            previous_applied_generation: self.previous_applied_generation,
            results: self.results.duplicate(),
            has_error: self.has_error,
        }
    }

    fn same(&self, other: &Self) -> (r: bool) {
        self.next_runtime.same(&other.next_runtime)
            && self.previous_applied_generation == other.previous_applied_generation
            && self.results.same(&other.results)
            && self.has_error == other.has_error
    }
}

impl Clone for SnapshotRuntimeApplyOutcome {
    fn clone(&self) -> (r: Self)
        ensures
            r.deep_view() == self.deep_view(),
    {
        self.duplicate()
    }
}

/// A snapshot that is being applied, port by port.
#[derive(Debug, PartialEq, Eq)]
pub struct SnapshotApply {
    pub generation: u64,
    pub requested_hash: Option<String>,
    pub full_resync: bool,
    pub before: NeutronRuntimeState,
    pub inventory_error: Option<String>,
    pub work: Vec<PortWork>,
    /// The number of pieces of work that are settled.
    pub position: usize,
    /// What came of the steps for the current piece.
    pub history: PortHistory,
    pub ports: OrderedMap<String, ManagedNeutronPort>,
    pub statuses: OrderedMap<String, NeutronPortStatus>,
    pub results: Vec<NeutronPortApplyResult>,
}

/// The model of [`SnapshotApply`].
#[verifier::ext_equal]
pub struct ApplyModel {
    pub generation: u64,
    pub requested_hash: Option<Seq<char>>,
    pub full_resync: bool,
    pub before: NeutronRuntimeStateModel,
    pub inventory_error: Option<Seq<char>>,
    pub work: Seq<WorkModel>,
    pub position: usize,
    pub history: PortHistoryModel,
    pub ports: Map<Seq<char>, ManagedNeutronPortModel>,
    pub statuses: Map<Seq<char>, NeutronPortStatusModel>,
    pub results: Seq<NeutronPortApplyResultModel>,
}

impl DeepView for SnapshotApply {
    type V = ApplyModel;

    open spec fn deep_view(&self) -> ApplyModel {
        ApplyModel {
            generation: self.generation,
            requested_hash: self.requested_hash.deep_view(),
            full_resync: self.full_resync,
            before: self.before.deep_view(),
            inventory_error: self.inventory_error.deep_view(),
            work: self.work.deep_view(),
            position: self.position,
            history: self.history.deep_view(),
            ports: self.ports.deep_view(),
            statuses: self.statuses.deep_view(),
            results: self.results.deep_view(),
        }
    }
}

impl Value for SnapshotApply {
    fn duplicate(&self) -> (r: Self) {
        SnapshotApply {
            generation: self.generation,
            requested_hash: self.requested_hash.duplicate(),
            full_resync: self.full_resync,
            before: self.before.duplicate(),
            inventory_error: self.inventory_error.duplicate(),
            work: self.work.duplicate(),
            position: self.position,
            history: self.history.duplicate(),
            ports: self.ports.duplicate(),
            statuses: self.statuses.duplicate(),
            results: self.results.duplicate(),
        }
    }

    fn same(&self, other: &Self) -> (r: bool) {
        self.generation == other.generation
            && self.requested_hash.same(&other.requested_hash)
            && self.full_resync == other.full_resync
            && self.before.same(&other.before)
            && self.inventory_error.same(&other.inventory_error)
            && self.work.same(&other.work)
            && self.position == other.position
            && self.history.same(&other.history)
            && self.ports.same(&other.ports)
            && self.statuses.same(&other.statuses)
            && self.results.same(&other.results)
    }
}

impl Clone for SnapshotApply {
    fn clone(&self) -> (r: Self)
        ensures
            r.deep_view() == self.deep_view(),
    {
        self.duplicate()
    }
}

/// The history of a port that nothing was done for yet.
pub open spec fn no_history() -> PortHistoryModel {
    PortHistoryModel {
        purged: None,
        detached: None,
        attached: None,
        fault: None,
        health: None,
        reused: None,
        reconciled: None,
        confirmed: None,
    }
}

impl Default for PortHistory {
    fn default() -> (r: Self)
        ensures
            r.deep_view() == no_history(),
    {
        PortHistory {
            purged: None,
            detached: None,
            attached: None,
            fault: None,
            health: None,
            reused: None,
            reconciled: None,
            confirmed: None,
        }
    }
}

/// What applying a snapshot has to do next.
#[derive(Debug, PartialEq, Eq)]
pub enum ApplyStep {
    /// Scrub the rules of a port.
    Purge { ifname: String, port_id: String },
    /// Detach an interface.
    Detach { ifname: String },
    /// Attach an interface, or make sure that it is attached.
    Attach { ifname: String, manages_acl: bool },
    /// Ask for an injected fault at the named point.
    CheckFault(&'static str),
    /// Ask what is known of the filtering state of an interface.
    ReadHealth { ifname: String },
    /// Claim an interface that already is what it should be.
    Reuse(AuthorityMark),
    /// Bring the domains of a port about.
    Reconcile { port: NeutronPortSnapshot, full_resync: bool },
    /// Claim an interface whose domains were brought about.
    Confirm(AuthorityMark),
    /// Record what the port came to.
    Settle(PortApplyOutcome),
    /// All ports are settled.
    Finish,
}

/// The model of [`ApplyStep`].
pub enum ApplyStepModel {
    Purge { ifname: Seq<char>, port_id: Seq<char> },
    Detach { ifname: Seq<char> },
    Attach { ifname: Seq<char>, manages_acl: bool },
    CheckFault(Seq<char>),
    ReadHealth { ifname: Seq<char> },
    Reuse(AuthorityMarkModel),
    Reconcile { port: NeutronPortSnapshotModel, full_resync: bool },
    Confirm(AuthorityMarkModel),
    Settle(PortOutcomeModel),
    Finish,
}

impl DeepView for ApplyStep {
    type V = ApplyStepModel;

    open spec fn deep_view(&self) -> ApplyStepModel {
        match self {
            ApplyStep::Purge { ifname, port_id } => {
                ApplyStepModel::Purge { ifname: ifname@, port_id: port_id@ }
            },
            ApplyStep::Detach { ifname } => ApplyStepModel::Detach { ifname: ifname@ },
            ApplyStep::Attach { ifname, manages_acl } => {
                ApplyStepModel::Attach { ifname: ifname@, manages_acl: *manages_acl }
            },
            ApplyStep::CheckFault(point) => ApplyStepModel::CheckFault(point@),
            ApplyStep::ReadHealth { ifname } => ApplyStepModel::ReadHealth { ifname: ifname@ },
            ApplyStep::Reuse(mark) => ApplyStepModel::Reuse(mark.deep_view()),
            ApplyStep::Reconcile { port, full_resync } => {
                ApplyStepModel::Reconcile { port: port.deep_view(), full_resync: *full_resync }
            },
            ApplyStep::Confirm(mark) => ApplyStepModel::Confirm(mark.deep_view()),
            ApplyStep::Settle(outcome) => ApplyStepModel::Settle(outcome.deep_view()),
            ApplyStep::Finish => ApplyStepModel::Finish,
        }
    }
}

/// What came of a step.
#[derive(Debug, PartialEq, Eq)]
pub enum ApplyEvent {
    Purged(HostOutcome),
    Detached(HostOutcome),
    Attached(HostOutcome),
    FaultChecked(HostOutcome),
    HealthRead(Option<ManagedProjectionHealth>),
    Reused(bool),
    Reconciled(DomainReconcileResult),
    Confirmed(bool),
}

/// The model of [`ApplyEvent`].
pub enum ApplyEventModel {
    Purged(OutcomeModel),
    Detached(OutcomeModel),
    Attached(OutcomeModel),
    FaultChecked(OutcomeModel),
    HealthRead(Option<ManagedProjectionHealth>),
    Reused(bool),
    Reconciled(DomainResultModel),
    Confirmed(bool),
}

impl DeepView for ApplyEvent {
    type V = ApplyEventModel;

    open spec fn deep_view(&self) -> ApplyEventModel {
        match self {
            ApplyEvent::Purged(outcome) => ApplyEventModel::Purged(outcome.deep_view()),
            ApplyEvent::Detached(outcome) => ApplyEventModel::Detached(outcome.deep_view()),
            ApplyEvent::Attached(outcome) => ApplyEventModel::Attached(outcome.deep_view()),
            ApplyEvent::FaultChecked(outcome) => ApplyEventModel::FaultChecked(outcome.deep_view()),
            ApplyEvent::HealthRead(health) => ApplyEventModel::HealthRead(health.deep_view()),
            ApplyEvent::Reused(held) => ApplyEventModel::Reused(*held),
            ApplyEvent::Reconciled(result) => ApplyEventModel::Reconciled(result.deep_view()),
            ApplyEvent::Confirmed(held) => ApplyEventModel::Confirmed(*held),
        }
    }
}

/// The history with one more step in it.
pub open spec fn noted(h: PortHistoryModel, event: ApplyEventModel) -> PortHistoryModel {
    match event {
        ApplyEventModel::Purged(outcome) => PortHistoryModel { purged: Some(outcome), ..h },
        ApplyEventModel::Detached(outcome) => PortHistoryModel { detached: Some(outcome), ..h },
        ApplyEventModel::Attached(outcome) => PortHistoryModel { attached: Some(outcome), ..h },
        ApplyEventModel::FaultChecked(outcome) => PortHistoryModel { fault: Some(outcome), ..h },
        ApplyEventModel::HealthRead(health) => PortHistoryModel { health: Some(health), ..h },
        ApplyEventModel::Reused(held) => PortHistoryModel { reused: Some(held), ..h },
        ApplyEventModel::Reconciled(result) => PortHistoryModel { reconciled: Some(result), ..h },
        ApplyEventModel::Confirmed(held) => PortHistoryModel { confirmed: Some(held), ..h },
    }
}

/// A port that could not be brought about, with all its domains.
pub open spec fn port_failure(
    ctx: ApplyModel,
    port_id: Seq<char>,
    ifname: Seq<char>,
    domains: Seq<Seq<char>>,
    action: Seq<char>,
    reason: Seq<char>,
) -> ApplyStepModel {
    ApplyStepModel::Settle(
        PortOutcomeModel {
            change: ChangeModel::Keep,
            status: Some(
                port_state(
                    port_id,
                    ifname,
                    ctx.generation,
                    ctx.requested_hash,
                    domains,
                    "error"@,
                    Some(reason),
                    states_of(normal_domains(domains), "error"@, Some(reason)),
                ),
            ),
            result: port_result(port_id, ifname, action, "error"@, Some(reason)),
        },
    )
}

/// A port whose domains were brought about, or were not.
pub open spec fn port_reconciled(
    ctx: ApplyModel,
    managed: ManagedNeutronPortModel,
    action: Seq<char>,
    result: DomainResultModel,
) -> ApplyStepModel {
    let worst = worst_state(result.domains);
    ApplyStepModel::Settle(
        PortOutcomeModel {
            change: if result.ok {
                ChangeModel::Put(managed)
            } else {
                ChangeModel::Keep
            },
            status: Some(
                port_state(
                    managed.port_id,
                    managed.ifname,
                    ctx.generation,
                    ctx.requested_hash,
                    managed.managed_domains,
                    if result.ok {
                        worst.0
                    } else {
                        "error"@
                    },
                    if result.ok {
                        worst.1
                    } else {
                        result.reason
                    },
                    result.domains,
                ),
            ),
            result: if result.ok {
                port_result(managed.port_id, managed.ifname, action, "ok"@, None)
            } else {
                port_result(managed.port_id, managed.ifname, action, "error"@, result.reason)
            },
        },
    )
}

/// What the domains of a port came to when its interface went away meanwhile.
pub open spec fn lost_instance(managed: ManagedNeutronPortModel) -> DomainResultModel {
    let reason = "managed_instance_detached_during_authority_commit"@;
    DomainResultModel {
        domains: states_of(normal_domains(managed.managed_domains), "error"@, Some(reason)),
        ok: false,
        reason: Some(reason),
    }
}

/// What the domains of a port came to, once the claim on its interface was answered.
pub open spec fn confirmed_result(
    managed: ManagedNeutronPortModel,
    result: DomainResultModel,
    confirmed: Option<bool>,
) -> DomainResultModel {
    if result.ok && confirmed == Some(false) {
        lost_instance(managed)
    } else {
        result
    }
}

/// The claim on the interface of a port.
pub open spec fn authority_mark(
    managed: ManagedNeutronPortModel,
    generation: u64,
    acl: bool,
) -> AuthorityMarkModel {
    AuthorityMarkModel {
        ifname: managed.ifname,
        port_id: managed.port_id,
        managed_domains: managed.managed_domains,
        generation,
        publication_mode: if acl {
            ManagedAclPublicationMode::ManagedAcl
        } else {
            ManagedAclPublicationMode::NeutronAttachOwnedStandaloneAcl
        },
        projection_health: if acl {
            Some(ManagedProjectionHealth::Verified)
        } else {
            None
        },
    }
}

/// What detaching a port has to do next: its rules go first.
pub open spec fn detach_step(
    ctx: ApplyModel,
    port: ManagedNeutronPortModel,
    h: PortHistoryModel,
) -> ApplyStepModel {
    match h.purged {
        None => ApplyStepModel::Purge { ifname: port.ifname, port_id: port.port_id },
        Some(OutcomeModel::Failed(error)) => port_failure(
            ctx,
            port.port_id,
            port.ifname,
            port.managed_domains,
            "detach"@,
            "neutron_acl_purge_failed:"@ + error,
        ),
        Some(OutcomeModel::Done) => match h.detached {
            None => ApplyStepModel::Detach { ifname: port.ifname },
            Some(OutcomeModel::Failed(error)) => port_failure(
                ctx,
                port.port_id,
                port.ifname,
                port.managed_domains,
                "detach"@,
                error,
            ),
            Some(OutcomeModel::Done) => ApplyStepModel::Settle(
                PortOutcomeModel {
                    change: ChangeModel::Remove,
                    status: Some(
                        port_state(
                            port.port_id,
                            port.ifname,
                            ctx.generation,
                            ctx.requested_hash,
                            port.managed_domains,
                            "detached"@,
                            None,
                            states_of(normal_domains(port.managed_domains), "detached"@, None),
                        ),
                    ),
                    result: port_result(port.port_id, port.ifname, "detach"@, "ok"@, None),
                },
            ),
        },
    }
}

/// The domains of a port that is taken over as it is.
pub open spec fn reused_domains(
    managed: ManagedNeutronPortModel,
    previous_status: Option<NeutronPortStatusModel>,
) -> Seq<NeutronDomainStatusModel> {
    match previous_status {
        Some(status) if status.domains.len() > 0 => status.domains,
        _ => states_of(normal_domains(managed.managed_domains), "ready"@, None),
    }
}

/// A port that is taken over as it is.
pub open spec fn port_reused(
    ctx: ApplyModel,
    managed: ManagedNeutronPortModel,
    previous_status: Option<NeutronPortStatusModel>,
) -> ApplyStepModel {
    ApplyStepModel::Settle(
        PortOutcomeModel {
            change: ChangeModel::Put(managed),
            status: Some(
                port_state(
                    managed.port_id,
                    managed.ifname,
                    ctx.generation,
                    ctx.requested_hash,
                    managed.managed_domains,
                    "ready"@,
                    None,
                    reused_domains(managed, previous_status),
                ),
            ),
            result: port_result(managed.port_id, managed.ifname, "update"@, "ok"@, None),
        },
    )
}

/// What updating a port has to do next: it is taken over where it already is what it should be
/// and the claim on it holds, and brought about otherwise.
pub open spec fn update_step(
    ctx: ApplyModel,
    port: NeutronPortSnapshotModel,
    h: PortHistoryModel,
) -> ApplyStepModel {
    let managed = managed_port(port);
    let missing = unimplemented(port.managed_domains);
    let previous = lookup(ctx.ports, port.port_id);
    let previous_status = lookup(ctx.before.port_statuses, port.port_id);
    let mark = authority_mark(managed, ctx.generation, manages_acl(managed.managed_domains));
    if missing.len() > 0 {
        port_failure(
            ctx,
            managed.port_id,
            managed.ifname,
            managed.managed_domains,
            "update"@,
            unimplemented_text(missing),
        )
    } else {
        match h.attached {
            None => ApplyStepModel::Attach {
                ifname: port.ifname,
                manages_acl: manages_acl(port.managed_domains),
            },
            Some(OutcomeModel::Failed(error)) => port_failure(
                ctx,
                managed.port_id,
                managed.ifname,
                managed.managed_domains,
                "update"@,
                "managed_acl_ownership_sync_failed:"@ + error,
            ),
            Some(OutcomeModel::Done) => match h.health {
                None => ApplyStepModel::ReadHealth { ifname: managed.ifname },
                Some(health) => {
                    let skip = may_skip(previous, previous_status, managed, ctx.full_resync, health);
                    if skip && h.reused is None {
                        ApplyStepModel::Reuse(mark)
                    } else if skip && h.reused == Some(true) {
                        port_reused(ctx, managed, previous_status)
                    } else {
                        match h.reconciled {
                            None => ApplyStepModel::Reconcile {
                                port,
                                full_resync: ctx.full_resync,
                            },
                            Some(result) => if result.ok && h.confirmed is None {
                                ApplyStepModel::Confirm(mark)
                            } else {
                                port_reconciled(
                                    ctx,
                                    managed,
                                    "update"@,
                                    confirmed_result(managed, result, h.confirmed),
                                )
                            },
                        }
                    }
                },
            },
        }
    }
}

/// What attaching a port has to do next: a port that could not be brought about is detached again,
/// its rules first.
pub open spec fn attach_step(
    ctx: ApplyModel,
    port: NeutronPortSnapshotModel,
    h: PortHistoryModel,
) -> ApplyStepModel {
    let managed = managed_port(port);
    let missing = unimplemented(port.managed_domains);
    let acl = manages_acl(port.managed_domains);
    if missing.len() > 0 {
        port_failure(
            ctx,
            managed.port_id,
            managed.ifname,
            managed.managed_domains,
            "attach"@,
            unimplemented_text(missing),
        )
    } else {
        match h.attached {
            None => ApplyStepModel::Attach { ifname: port.ifname, manages_acl: acl },
            Some(OutcomeModel::Failed(error)) => port_failure(
                ctx,
                port.port_id,
                port.ifname,
                port.managed_domains,
                "attach"@,
                error,
            ),
            Some(OutcomeModel::Done) => match h.fault {
                None => ApplyStepModel::CheckFault("neutron.port.after_attach"@),
                Some(OutcomeModel::Failed(error)) => if h.detached is None {
                    ApplyStepModel::Detach { ifname: port.ifname }
                } else {
                    ApplyStepModel::Settle(
                        PortOutcomeModel {
                            change: ChangeModel::Keep,
                            status: None,
                            result: port_result(
                                port.port_id,
                                port.ifname,
                                "attach"@,
                                "error"@,
                                Some(error),
                            ),
                        },
                    )
                },
                Some(OutcomeModel::Done) => match h.reconciled {
                    None => ApplyStepModel::Reconcile { port, full_resync: ctx.full_resync },
                    Some(result) => if result.ok && h.confirmed is None {
                        ApplyStepModel::Confirm(authority_mark(managed, ctx.generation, acl))
                    } else {
                        let settled = confirmed_result(managed, result, h.confirmed);
                        if settled.ok {
                            port_reconciled(ctx, managed, "attach"@, settled)
                        } else if h.purged is None {
                            ApplyStepModel::Purge { ifname: port.ifname, port_id: port.port_id }
                        } else if h.purged == Some(OutcomeModel::Done) && h.detached is None {
                            ApplyStepModel::Detach { ifname: port.ifname }
                        } else {
                            port_reconciled(ctx, managed, "attach"@, settled)
                        }
                    },
                },
            },
        }
    }
}

/// What applying a snapshot has to do next.
pub open spec fn apply_step(ctx: ApplyModel) -> ApplyStepModel {
    if ctx.position >= ctx.work.len() {
        ApplyStepModel::Finish
    } else {
        match ctx.work[ctx.position as int] {
            WorkModel::Detach(port) => detach_step(ctx, port, ctx.history),
            WorkModel::Update(port) => update_step(ctx, port, ctx.history),
            WorkModel::Attach(port) => attach_step(ctx, port, ctx.history),
        }
    }
}

/// The work of a plan: detach first, then update, then attach.
pub open spec fn plan_work(plan: SnapshotPlanModel) -> Seq<WorkModel> {
    plan.detach.map_values(|port: ManagedNeutronPortModel| WorkModel::Detach(port))
        + plan.update.map_values(|port: NeutronPortSnapshotModel| WorkModel::Update(port))
        + plan.attach.map_values(|port: NeutronPortSnapshotModel| WorkModel::Attach(port))
}

/// The record of an inventory that was not to be had.
pub open spec fn inventory_result(reason: Seq<char>) -> NeutronPortApplyResultModel {
    port_result("snapshot"@, ""@, "ignore"@, "error"@, Some(reason))
}

/// A snapshot at the start of being applied; without an inventory there is nothing to do.
pub open spec fn apply_start(
    generation: u64,
    requested_hash: Option<Seq<char>>,
    current_ports: Map<Seq<char>, ManagedNeutronPortModel>,
    before: NeutronRuntimeStateModel,
    transaction: SnapshotApplyTransactionModel,
) -> ApplyModel {
    let plan = transaction.plan;
    ApplyModel {
        generation,
        requested_hash,
        full_resync: transaction.scope is FullHost,
        before,
        inventory_error: plan.inventory_error,
        work: match plan.inventory_error {
            Some(_) => Seq::empty(),
            None => plan_work(plan),
        },
        position: 0,
        history: no_history(),
        ports: current_ports,
        statuses: status_seed(before.port_statuses, transaction.scope),
        results: match plan.inventory_error {
            Some(reason) => plan.ignored.push(inventory_result(reason)),
            None => plan.ignored,
        },
    }
}

/// A snapshot with one more port settled.
pub open spec fn apply_settled(ctx: ApplyModel, outcome: PortOutcomeModel) -> ApplyModel {
    let port_id = outcome.result.port_id;
    ApplyModel {
        position: (ctx.position + 1) as usize,
        history: no_history(),
        ports: match outcome.change {
            ChangeModel::Keep => ctx.ports,
            ChangeModel::Remove => ctx.ports.remove(port_id),
            ChangeModel::Put(port) => ctx.ports.insert(port_id, port),
        },
        statuses: match outcome.status {
            Some(status) => ctx.statuses.insert(port_id, status),
            None => ctx.statuses,
        },
        results: ctx.results.push(outcome.result),
        ..ctx
    }
}

/// True when one of the ports came to an error.
pub open spec fn any_error(results: Seq<NeutronPortApplyResultModel>) -> bool {
    exists|i: int| 0 <= i < results.len() && (#[trigger] results[i]).status == "error"@
}

/// The runtime that waits for the inventory.
pub open spec fn inventory_blocked(
    before: NeutronRuntimeStateModel,
    generation: u64,
    requested_hash: Option<Seq<char>>,
) -> NeutronRuntimeStateModel {
    NeutronRuntimeStateModel {
        accepted_generation: generation,
        desired_hash: requested_hash,
        pending_generation: Some(generation),
        authority_state: "blocked_recovery_required"@,
        wal_status: "inventory_unavailable"@,
        recovery_cause: Some("inventory_unavailable"@),
        ..before
    }
}

/// What applying a snapshot came to.
pub open spec fn apply_outcome(ctx: ApplyModel) -> ApplyOutcomeModel {
    match ctx.inventory_error {
        Some(_) => ApplyOutcomeModel {
            next_runtime: inventory_blocked(ctx.before, ctx.generation, ctx.requested_hash),
            previous_applied_generation: ctx.before.applied_generation,
            results: ctx.results,
            has_error: true,
        },
        None => ApplyOutcomeModel {
            next_runtime: committed(
                ctx.before,
                ctx.generation,
                ctx.requested_hash,
                ctx.ports,
                ctx.statuses,
                any_error(ctx.results),
            ),
            previous_applied_generation: ctx.before.applied_generation,
            results: ctx.results,
            has_error: any_error(ctx.results),
        },
    }
}

/// Makes the runtime that waits for the inventory.
pub fn block_for_inventory(
    before: &NeutronRuntimeState,
    generation: u64,
    requested_hash: &Option<String>,
) -> (r: NeutronRuntimeState)
    ensures
        r.deep_view() == inventory_blocked(
            before.deep_view(),
            generation,
            requested_hash.deep_view(),
        ),
{
    let mut next = before.duplicate();
    next.accepted_generation = generation;
    next.desired_hash = requested_hash.duplicate();
    next.pending_generation = Some(generation);
    next.authority_state = "blocked_recovery_required".to_owned();
    next.wal_status = "inventory_unavailable".to_owned();
    next.recovery_cause = Some("inventory_unavailable".to_owned());
    next
}

fn list_work(plan: &SnapshotPlan) -> (r: Vec<PortWork>)
    ensures
        r.deep_view() == plan_work(plan.deep_view()),
{
    let ghost detach = plan.deep_view().detach.map_values(
        |port: ManagedNeutronPortModel| WorkModel::Detach(port),
    );
    let ghost update = plan.deep_view().update.map_values(
        |port: NeutronPortSnapshotModel| WorkModel::Update(port),
    );
    let ghost attach = plan.deep_view().attach.map_values(
        |port: NeutronPortSnapshotModel| WorkModel::Attach(port),
    );
    let mut r: Vec<PortWork> = Vec::new();
    let mut i: usize = 0;
    assert(r.deep_view() =~= detach.take(0));
    while i < plan.detach.len()
        invariant
            i <= plan.detach.len(),
            detach == plan.deep_view().detach.map_values(
                |port: ManagedNeutronPortModel| WorkModel::Detach(port),
            ),
            r.deep_view() == detach.take(i as int),
        decreases plan.detach.len() - i,
    {
        let ghost before = r.deep_view();
        let work = PortWork::Detach(plan.detach[i].duplicate());
        r.push(work);
        assert(r.deep_view() =~= before.push(work.deep_view()));
        assert(detach.take(i + 1) =~= detach.take(i as int).push(detach[i as int]));
        i += 1;
    }
    assert(r.deep_view() =~= detach + update.take(0));
    let mut j: usize = 0;
    while j < plan.update.len()
        invariant
            j <= plan.update.len(),
            update == plan.deep_view().update.map_values(
                |port: NeutronPortSnapshotModel| WorkModel::Update(port),
            ),
            r.deep_view() == detach + update.take(j as int),
        decreases plan.update.len() - j,
    {
        let ghost before = r.deep_view();
        let work = PortWork::Update(plan.update[j].duplicate());
        r.push(work);
        assert(r.deep_view() =~= before.push(work.deep_view()));
        assert(detach + update.take(j + 1) =~= before.push(update[j as int]));
        j += 1;
    }
    assert(r.deep_view() =~= detach + update + attach.take(0));
    let mut k: usize = 0;
    while k < plan.attach.len()
        invariant
            k <= plan.attach.len(),
            attach == plan.deep_view().attach.map_values(
                |port: NeutronPortSnapshotModel| WorkModel::Attach(port),
            ),
            r.deep_view() == detach + update + attach.take(k as int),
        decreases plan.attach.len() - k,
    {
        let ghost before = r.deep_view();
        let work = PortWork::Attach(plan.attach[k].duplicate());
        r.push(work);
        assert(r.deep_view() =~= before.push(work.deep_view()));
        assert(detach + update + attach.take(k + 1) =~= before.push(attach[k as int]));
        k += 1;
    }
    assert(attach.take(k as int) =~= attach);
    r
}

fn has_error(results: &Vec<NeutronPortApplyResult>) -> (r: bool)
    ensures
        r == any_error(results.deep_view()),
{
    let ghost models = results.deep_view();
    let mut i: usize = 0;
    while i < results.len()
        invariant
            i <= results.len(),
            models == results.deep_view(),
            forall|j: int| 0 <= j < i ==> (#[trigger] models[j]).status != "error"@,
        ensures
            i == results.len(),
        decreases results.len() - i,
    {
        assert(models[i as int] == results@[i as int].deep_view());
        if text_eq(results[i].status.as_str(), "error") {
            return true;
        }
        i += 1;
    }
    false
}

impl SnapshotApply {
    /// Begins to apply a snapshot.
    pub fn start(
        generation: u64,
        requested_hash: Option<String>,
        current_ports: OrderedMap<String, ManagedNeutronPort>,
        runtime_before_apply: NeutronRuntimeState,
        transaction: &SnapshotApplyTransaction,
    ) -> (r: Self)
        ensures
            r.deep_view() == apply_start(
                generation,
                requested_hash.deep_view(),
                current_ports.deep_view(),
                runtime_before_apply.deep_view(),
                transaction.deep_view(),
            ),
    {
        let full_resync = match &transaction.scope {
            ApplyScope::FullHost => true,
            ApplyScope::SinglePort(_) => false,
        };
        let statuses = port_status_seed_for_scope(&runtime_before_apply, &transaction.scope);
        let mut results = transaction.plan.ignored.duplicate();
        let ghost ignored = results.deep_view();
        let mut work: Vec<PortWork> = Vec::new();
        match &transaction.plan.inventory_error {
            Some(reason) => {
                let result = transaction_result(
                    "snapshot",
                    "",
                    "ignore",
                    "error",
                    Some(reason.as_str()),
                );
                let ghost pushed = result.deep_view();
                results.push(result);
                assert(results.deep_view() =~= ignored.push(pushed));
                assert(work.deep_view() =~= Seq::<WorkModel>::empty());
            },
            None => {
                work = list_work(&transaction.plan);
            },
        }
        SnapshotApply {
            generation,
            requested_hash,
            full_resync,
            before: runtime_before_apply,
            inventory_error: transaction.plan.inventory_error.duplicate(),
            work,
            position: 0,
            history: PortHistory::default(),
            ports: current_ports,
            statuses,
            results,
        }
    }

    fn fail(
        &self,
        port_id: &String,
        ifname: &String,
        domains: &Vec<String>,
        action: &str,
        reason: String,
    ) -> (r: ApplyStep)
        ensures
            r.deep_view() == port_failure(
                self.deep_view(),
                port_id@,
                ifname@,
                domains.deep_view(),
                action@,
                reason@,
            ),
    {
        ApplyStep::Settle(
            PortApplyOutcome {
                change: PortChange::Keep,
                status: Some(
                    port_runtime_status(
                        port_id.as_str(),
                        ifname.as_str(),
                        self.generation,
                        self.requested_hash.duplicate(),
                        domains.duplicate(),
                        "error",
                        Some(reason.duplicate()),
                        domain_statuses_for(domains, "error", Some(reason.duplicate())),
                    ),
                ),
                result: transaction_result(
                    port_id.as_str(),
                    ifname.as_str(),
                    action,
                    "error",
                    Some(reason.as_str()),
                ),
            },
        )
    }

    fn settle_reconciled(
        &self,
        managed: ManagedNeutronPort,
        action: &str,
        result: DomainReconcileResult,
    ) -> (r: ApplyStep)
        ensures
            r.deep_view() == port_reconciled(
                self.deep_view(),
                managed.deep_view(),
                action@,
                result.deep_view(),
            ),
    {
        let domains = result.domains.as_slice();
        assert(domains.deep_view() =~= result.domains.deep_view());
        let (word, reason) = if result.ok {
            successful_port_status(domains)
        } else {
            ("error".to_owned(), result.reason.duplicate())
        };
        let record = if result.ok {
            transaction_result(
                managed.port_id.as_str(),
                managed.ifname.as_str(),
                action,
                "ok",
                None,
            )
        } else {
            transaction_result(
                managed.port_id.as_str(),
                managed.ifname.as_str(),
                action,
                "error",
                crate::host::as_text(&result.reason),
            )
        };
        let status = port_runtime_status(
            managed.port_id.as_str(),
            managed.ifname.as_str(),
            self.generation,
            self.requested_hash.duplicate(),
            managed.managed_domains.duplicate(),
            word.as_str(),
            reason,
            result.domains,
        );
        ApplyStep::Settle(
            PortApplyOutcome {
                change: if result.ok {
                    PortChange::Put(managed)
                } else {
                    PortChange::Keep
                },
                status: Some(status),
                result: record,
            },
        )
    }

    fn mark(&self, managed: &ManagedNeutronPort, acl: bool) -> (r: AuthorityMark)
        ensures
            r.deep_view() == authority_mark(managed.deep_view(), self.generation, acl),
    {
        AuthorityMark {
            ifname: managed.ifname.duplicate(),
            port_id: managed.port_id.duplicate(),
            managed_domains: managed.managed_domains.duplicate(),
            generation: self.generation,
            publication_mode: required_neutron_publication_mode(acl),
            projection_health: if acl {
                Some(ManagedProjectionHealth::Verified)
            } else {
                None
            },
        }
    }

    fn confirmed(
        &self,
        managed: &ManagedNeutronPort,
        result: &DomainReconcileResult,
    ) -> (r: DomainReconcileResult)
        ensures
            r.deep_view() == confirmed_result(
                managed.deep_view(),
                result.deep_view(),
                self.history.confirmed,
            ),
    {
        let lost = match self.history.confirmed {
            Some(held) => !held,
            None => false,
        };
        if result.ok && lost {
            let reason = "managed_instance_detached_during_authority_commit".to_owned();
            DomainReconcileResult {
                domains: domain_statuses_for(
                    &managed.managed_domains,
                    "error",
                    Some(reason.duplicate()),
                ),
                ok: false,
                reason: Some(reason),
            }
        } else {
            result.duplicate()
        }
    }

    fn next_detach(&self, port: &ManagedNeutronPort) -> (r: ApplyStep)
        ensures
            r.deep_view() == detach_step(
                self.deep_view(),
                port.deep_view(),
                self.history.deep_view(),
            ),
    {
        match &self.history.purged {
            None => ApplyStep::Purge {
                ifname: port.ifname.duplicate(),
                port_id: port.port_id.duplicate(),
            },
            Some(HostOutcome::Failed(error)) => {
                let mut reason = "neutron_acl_purge_failed:".to_owned();
                reason.append(error.as_str());
                self.fail(&port.port_id, &port.ifname, &port.managed_domains, "detach", reason)
            },
            Some(HostOutcome::Done) => match &self.history.detached {
                None => ApplyStep::Detach { ifname: port.ifname.duplicate() },
                Some(HostOutcome::Failed(error)) => self.fail(
                    &port.port_id,
                    &port.ifname,
                    &port.managed_domains,
                    "detach",
                    error.duplicate(),
                ),
                Some(HostOutcome::Done) => ApplyStep::Settle(
                    PortApplyOutcome {
                        change: PortChange::Remove,
                        status: Some(
                            port_runtime_status(
                                port.port_id.as_str(),
                                port.ifname.as_str(),
                                self.generation,
                                self.requested_hash.duplicate(),
                                port.managed_domains.duplicate(),
                                "detached",
                                None,
                                domain_statuses_for(&port.managed_domains, "detached", None),
                            ),
                        ),
                        result: transaction_result(
                            port.port_id.as_str(),
                            port.ifname.as_str(),
                            "detach",
                            "ok",
                            None,
                        ),
                    },
                ),
            },
        }
    }

    fn settle_reused(
        &self,
        managed: ManagedNeutronPort,
        previous_status: Option<&NeutronPortStatus>,
    ) -> (r: ApplyStep)
        ensures
            r.deep_view() == port_reused(
                self.deep_view(),
                managed.deep_view(),
                previous_status.deep_view(),
            ),
    {
        let domains = match previous_status {
            Some(status) => {
                assert(status.domains.deep_view().len() == status.domains.len());
                if status.domains.len() > 0 {
                    status.domains.duplicate()
                } else {
                    domain_statuses_for(&managed.managed_domains, "ready", None)
                }
            },
            None => domain_statuses_for(&managed.managed_domains, "ready", None),
        };
        let status = port_runtime_status(
            managed.port_id.as_str(),
            managed.ifname.as_str(),
            self.generation,
            self.requested_hash.duplicate(),
            managed.managed_domains.duplicate(),
            "ready",
            None,
            domains,
        );
        let result = transaction_result(
            managed.port_id.as_str(),
            managed.ifname.as_str(),
            "update",
            "ok",
            None,
        );
        ApplyStep::Settle(
            PortApplyOutcome { change: PortChange::Put(managed), status: Some(status), result },
        )
    }

    fn next_update(&self, port: &NeutronPortSnapshot) -> (r: ApplyStep)
        ensures
            r.deep_view() == update_step(
                self.deep_view(),
                port.deep_view(),
                self.history.deep_view(),
            ),
    {
        let managed = managed_port_from_snapshot(port);
        let missing = unsupported_neutron_managed_domains(&port.managed_domains);
        assert(missing.deep_view().len() == missing.len());
        if missing.len() > 0 {
            return self.fail(
                &managed.port_id,
                &managed.ifname,
                &managed.managed_domains,
                "update",
                blocked_by_unimplemented_domains(&missing),
            );
        }
        match &self.history.attached {
            None => {
                return ApplyStep::Attach {
                    ifname: port.ifname.duplicate(),
                    manages_acl: port_manages_acl(port),
                };
            },
            Some(HostOutcome::Failed(error)) => {
                let mut reason = "managed_acl_ownership_sync_failed:".to_owned();
                reason.append(error.as_str());
                return self.fail(
                    &managed.port_id,
                    &managed.ifname,
                    &managed.managed_domains,
                    "update",
                    reason,
                );
            },
            Some(HostOutcome::Done) => {},
        }
        let health = match &self.history.health {
            None => {
                return ApplyStep::ReadHealth { ifname: managed.ifname.duplicate() };
            },
            Some(health) => *health,
        };
        let previous = self.ports.get(&port.port_id);
        let previous_status = self.before.port_statuses.get(&port.port_id);
        let skip = can_skip_neutron_domain_reconcile(
            previous,
            previous_status,
            &managed,
            self.full_resync,
            health,
        );
        assert(health.deep_view() == health);
        if skip {
            match self.history.reused {
                None => {
                    let acl = domains_manage_acl(&managed.managed_domains);
                    return ApplyStep::Reuse(self.mark(&managed, acl));
                },
                Some(held) => {
                    if held {
                        return self.settle_reused(managed, previous_status);
                    }
                },
            }
        }
        match &self.history.reconciled {
            None => ApplyStep::Reconcile {
                port: port.duplicate(),
                full_resync: self.full_resync,
            },
            Some(result) => if result.ok && self.history.confirmed.is_none() {
                let acl = domains_manage_acl(&managed.managed_domains);
                ApplyStep::Confirm(self.mark(&managed, acl))
            } else {
                let settled = self.confirmed(&managed, result);
                self.settle_reconciled(managed, "update", settled)
            },
        }
    }

    fn next_attach(&self, port: &NeutronPortSnapshot) -> (r: ApplyStep)
        ensures
            r.deep_view() == attach_step(
                self.deep_view(),
                port.deep_view(),
                self.history.deep_view(),
            ),
    {
        let managed = managed_port_from_snapshot(port);
        let missing = unsupported_neutron_managed_domains(&port.managed_domains);
        assert(missing.deep_view().len() == missing.len());
        if missing.len() > 0 {
            return self.fail(
                &managed.port_id,
                &managed.ifname,
                &managed.managed_domains,
                "attach",
                blocked_by_unimplemented_domains(&missing),
            );
        }
        let acl = port_manages_acl(port);
        match &self.history.attached {
            None => {
                return ApplyStep::Attach { ifname: port.ifname.duplicate(), manages_acl: acl };
            },
            Some(HostOutcome::Failed(error)) => {
                return self.fail(
                    &port.port_id,
                    &port.ifname,
                    &port.managed_domains,
                    "attach",
                    error.duplicate(),
                );
            },
            Some(HostOutcome::Done) => {},
        }
        match &self.history.fault {
            None => {
                return ApplyStep::CheckFault("neutron.port.after_attach");
            },
            Some(HostOutcome::Failed(error)) => {
                if self.history.detached.is_none() {
                    return ApplyStep::Detach { ifname: port.ifname.duplicate() };
                }
                return ApplyStep::Settle(
                    PortApplyOutcome {
                        change: PortChange::Keep,
                        status: None,
                        result: transaction_result(
                            port.port_id.as_str(),
                            port.ifname.as_str(),
                            "attach",
                            "error",
                            Some(error.as_str()),
                        ),
                    },
                );
            },
            Some(HostOutcome::Done) => {},
        }
        let result = match &self.history.reconciled {
            None => {
                return ApplyStep::Reconcile {
                    port: port.duplicate(),
                    full_resync: self.full_resync,
                };
            },
            Some(result) => result,
        };
        if result.ok && self.history.confirmed.is_none() {
            return ApplyStep::Confirm(self.mark(&managed, acl));
        }
        let settled = self.confirmed(&managed, result);
        if !settled.ok {
            match (&self.history.purged, &self.history.detached) {
                (None, _) => {
                    return ApplyStep::Purge {
                        ifname: port.ifname.duplicate(),
                        port_id: port.port_id.duplicate(),
                    };
                },
                (Some(HostOutcome::Done), None) => {
                    return ApplyStep::Detach { ifname: port.ifname.duplicate() };
                },
                _ => {},
            }
        }
        self.settle_reconciled(managed, "attach", settled)
    }

    /// Tells what applying the snapshot has to do next.
    pub fn next(&self) -> (r: ApplyStep)
        ensures
            r.deep_view() == apply_step(self.deep_view()),
    {
        assert(self.work.deep_view().len() == self.work.len());
        if self.position >= self.work.len() {
            return ApplyStep::Finish;
        }
        assert(self.work.deep_view()[self.position as int]
            == self.work@[self.position as int].deep_view());
        match &self.work[self.position] {
            PortWork::Detach(port) => self.next_detach(port),
            PortWork::Update(port) => self.next_update(port),
            PortWork::Attach(port) => self.next_attach(port),
        }
    }

    /// Takes note of what came of a step.
    pub fn observe(&mut self, event: ApplyEvent)
        ensures
            final(self).deep_view() == (ApplyModel {
                history: noted(old(self).deep_view().history, event.deep_view()),
                ..old(self).deep_view()
            }),
    {
        match event {
            ApplyEvent::Purged(outcome) => {
                self.history.purged = Some(outcome);
            },
            ApplyEvent::Detached(outcome) => {
                self.history.detached = Some(outcome);
            },
            ApplyEvent::Attached(outcome) => {
                self.history.attached = Some(outcome);
            },
            ApplyEvent::FaultChecked(outcome) => {
                self.history.fault = Some(outcome);
            },
            ApplyEvent::HealthRead(health) => {
                self.history.health = Some(health);
            },
            ApplyEvent::Reused(held) => {
                self.history.reused = Some(held);
            },
            ApplyEvent::Reconciled(result) => {
                self.history.reconciled = Some(result);
            },
            ApplyEvent::Confirmed(held) => {
                self.history.confirmed = Some(held);
            },
        }
    }

    /// Records what the current port came to, where that is the next step, and goes on to the
    /// next one.
    pub fn settle(&mut self) -> (r: bool)
        ensures
            r == (apply_step(old(self).deep_view()) is Settle),
            final(self).deep_view() == match apply_step(old(self).deep_view()) {
                ApplyStepModel::Settle(outcome) => apply_settled(old(self).deep_view(), outcome),
                _ => old(self).deep_view(),
            },
    {
        let outcome = match self.next() {
            ApplyStep::Settle(outcome) => outcome,
            _ => {
                return false;
            },
        };
        assert(self.position < self.work.deep_view().len() == self.work.len());
        let ghost before = self.results.deep_view();
        let PortApplyOutcome { change, status, result } = outcome;
        match change {
            PortChange::Keep => {},
            PortChange::Remove => {
                self.ports.remove(&result.port_id);
            },
            PortChange::Put(port) => {
                self.ports.insert(result.port_id.duplicate(), port);
            },
        }
        if let Some(status) = status {
            self.statuses.insert(result.port_id.duplicate(), status);
        }
        let ghost pushed = result.deep_view();
        self.results.push(result);
        assert(self.results.deep_view() =~= before.push(pushed));
        self.position = self.position + 1;
        self.history = PortHistory::default();
        true
    }

    /// Tells what applying the snapshot came to.
    pub fn finish(&self) -> (r: SnapshotRuntimeApplyOutcome)
        ensures
            r.deep_view() == apply_outcome(self.deep_view()),
    {
        if self.inventory_error.is_some() {
            return SnapshotRuntimeApplyOutcome {
                next_runtime: block_for_inventory(
                    &self.before,
                    self.generation,
                    &self.requested_hash,
                ),
                previous_applied_generation: self.before.applied_generation,
                results: self.results.duplicate(),
                has_error: true,
            };
        }
        let failed = has_error(&self.results);
        SnapshotRuntimeApplyOutcome {
            next_runtime: build_snapshot_commit_runtime(
                &self.before,
                self.generation,
                self.requested_hash.duplicate(),
                self.ports.duplicate(),
                self.statuses.duplicate(),
                failed,
            ),
            previous_applied_generation: self.before.applied_generation,
            results: self.results.duplicate(),
            has_error: failed,
        }
    }
}

} // verus!
