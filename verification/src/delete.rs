//! Deleting a port.

use crate::acl_gate::{NeutronAclReconcileError, ReconcileErrorModel};
use crate::domains::{affected_domains, affected_domains_for_ports};
use crate::host::{HostOutcome, OutcomeModel};
use crate::inventory::{detached_port_cleanup_requires_acl_purge, lookup};
use crate::model::{
    ManagedNeutronPort, ManagedNeutronPortModel, NeutronDomainStatus, NeutronDomainStatusModel,
    NeutronPortStatus, NeutronPortStatusModel, NeutronRuntimeState, NeutronRuntimeStateModel,
    NeutronWalState, NeutronWalStateModel, PendingNeutronIntent, PendingNeutronIntentModel,
};
use crate::ordered::{OrderedMap, Value};
use crate::recovery::wal_of_runtime;
use crate::scope::ReplyStatus;
use crate::status::{
    domain_state, domain_status_with_action, port_runtime_status, port_state,
    runtime_domain_statuses_for, runtime_domains, states_of,
};
use crate::text::text_eq;
use vstd::prelude::*;
use vstd::string::*;

verus! {

/// What deleting a port came to.
#[derive(Debug, PartialEq, Eq)]
pub struct NeutronDeleteResponse {
    pub port_id: String,
    pub ifname: Option<String>,
    pub detached: bool,
    pub status: String,
    pub error: Option<String>,
}

/// The model of [`NeutronDeleteResponse`].
#[verifier::ext_equal]
pub struct DeleteResponseModel {
    pub port_id: Seq<char>,
    pub ifname: Option<Seq<char>>,
    pub detached: bool,
    pub status: Seq<char>,
    pub error: Option<Seq<char>>,
}

impl DeepView for NeutronDeleteResponse {
    type V = DeleteResponseModel;

    open spec fn deep_view(&self) -> DeleteResponseModel {
        DeleteResponseModel {
            port_id: self.port_id.deep_view(),
            ifname: self.ifname.deep_view(),
            detached: self.detached,
            status: self.status.deep_view(),
            error: self.error.deep_view(),
        }
    }
}

impl Value for NeutronDeleteResponse {
    fn duplicate(&self) -> (r: Self) {
        NeutronDeleteResponse {
            port_id: self.port_id.duplicate(),
            ifname: self.ifname.duplicate(),
            detached: self.detached,
            status: self.status.duplicate(),
            error: self.error.duplicate(),
        }
    }

    fn same(&self, other: &Self) -> (r: bool) {
        self.port_id.same(&other.port_id)
            && self.ifname.same(&other.ifname)
            && self.detached == other.detached
            && self.status.same(&other.status)
            && self.error.same(&other.error)
    }
}

impl Clone for NeutronDeleteResponse {
    fn clone(&self) -> (r: Self)
        ensures
            r.deep_view() == self.deep_view(),
    {
        self.duplicate()
    }
}

/// The runtime without a port that was deleted.
pub open spec fn deleted_runtime(
    previous: NeutronRuntimeStateModel,
    port_id: Seq<char>,
) -> NeutronRuntimeStateModel {
    NeutronRuntimeStateModel {
        ports: previous.ports.remove(port_id),
        port_statuses: previous.port_statuses.remove(port_id),
        pending_generation: None,
        desired_hash: previous.applied_desired_hash,
        wal_status: "commit_written"@,
        recovery_cause: None,
        ..previous
    }
}

/// Makes the runtime without a port that was deleted.
pub fn build_committed_delete_runtime(previous: &NeutronRuntimeState, port_id: &String) -> (r:
    NeutronRuntimeState)
    ensures
        r.deep_view() == deleted_runtime(previous.deep_view(), port_id@),
{
    let mut next = previous.duplicate();
    next.ports.remove(port_id);
    next.port_statuses.remove(port_id);
    next.pending_generation = None;
    next.desired_hash = previous.applied_desired_hash.duplicate();
    next.wal_status = "commit_written".to_owned();
    next.recovery_cause = None;
    next
}

/// The state of a domain of a port that could not be deleted.
pub open spec fn blocked_domain(
    domain: Seq<char>,
    reason: Seq<char>,
    acl_action: Seq<char>,
) -> NeutronDomainStatusModel {
    domain_state(
        domain,
        "blocked"@,
        Some(reason),
        if domain == "acl"@ {
            Some(acl_action)
        } else {
            None
        },
    )
}

/// The status of a port that could not be deleted.
pub open spec fn blocked_delete_status(
    port: ManagedNeutronPortModel,
    generation: u64,
    reason: Seq<char>,
    acl_action: Seq<char>,
) -> NeutronPortStatusModel {
    port_state(
        port.port_id,
        port.ifname,
        generation,
        None,
        port.managed_domains,
        "blocked"@,
        Some(reason),
        runtime_domains(port.managed_domains).map_values(
            |domain: Seq<char>| blocked_domain(domain, reason, acl_action),
        ),
    )
}

/// The runtime that waits for a recovery of a deletion, without any port named.
pub open spec fn blocked_delete_base(
    previous: NeutronRuntimeStateModel,
    generation: u64,
    wal_status: Seq<char>,
) -> NeutronRuntimeStateModel {
    NeutronRuntimeStateModel {
        pending_generation: Some(generation),
        desired_hash: None,
        authority_state: "blocked_recovery_required"@,
        wal_status,
        recovery_cause: None,
        ..previous
    }
}

/// The runtime with a port that could not be deleted: the port stays.
pub open spec fn blocked_delete(
    previous: NeutronRuntimeStateModel,
    port: ManagedNeutronPortModel,
    generation: u64,
    wal_status: Seq<char>,
    reason: Seq<char>,
    acl_action: Seq<char>,
) -> NeutronRuntimeStateModel {
    NeutronRuntimeStateModel {
        ports: previous.ports.insert(port.port_id, port),
        port_statuses: previous.port_statuses.insert(
            port.port_id,
            blocked_delete_status(port, generation, reason, acl_action),
        ),
        ..blocked_delete_base(previous, generation, wal_status)
    }
}

fn block_base(previous: &NeutronRuntimeState, generation: u64, wal_status: &str) -> (r:
    NeutronRuntimeState)
    ensures
        r.deep_view() == blocked_delete_base(previous.deep_view(), generation, wal_status@),
{
    let mut next = previous.duplicate();
    next.pending_generation = Some(generation);
    next.desired_hash = None;
    next.authority_state = "blocked_recovery_required".to_owned();
    next.wal_status = wal_status.to_owned();
    next.recovery_cause = None;
    next
}

/// Makes the runtime with a port that could not be deleted.
pub fn build_blocked_delete_runtime(
    previous: &NeutronRuntimeState,
    port: &ManagedNeutronPort,
    generation: u64,
    wal_status: &str,
    reason: &str,
    acl_effective_action: &str,
) -> (r: NeutronRuntimeState)
    ensures
        r.deep_view() == blocked_delete(
            previous.deep_view(),
            port.deep_view(),
            generation,
            wal_status@,
            reason@,
            acl_effective_action@,
        ),
{
    let plain = runtime_domain_statuses_for(
        &port.managed_domains,
        "blocked",
        Some(reason.to_owned()),
    );
    let ghost names = runtime_domains(port.deep_view().managed_domains);
    let ghost states = plain.deep_view();
    let ghost wanted = names.map_values(
        |domain: Seq<char>| blocked_domain(domain, reason@, acl_effective_action@),
    );
    assert(states == states_of(names, "blocked"@, Some(reason@)));
    assert(names.len() == states.len() == plain.len());
    let mut domains: Vec<NeutronDomainStatus> = Vec::new();
    let mut i: usize = 0;
    assert(domains.deep_view() =~= wanted.take(0));
    while i < plain.len()
        invariant
            i <= plain.len(),
            states == plain.deep_view(),
            states == states_of(names, "blocked"@, Some(reason@)),
            names.len() == plain.len(),
            wanted == names.map_values(
                |domain: Seq<char>| blocked_domain(domain, reason@, acl_effective_action@),
            ),
            domains.deep_view() == wanted.take(i as int),
        decreases plain.len() - i,
    {
        assert(states[i as int] == plain@[i as int].deep_view());
        let state = if text_eq(plain[i].domain.as_str(), "acl") {
            domain_status_with_action(
                "acl",
                "blocked",
                Some(reason.to_owned()),
                Some(acl_effective_action.to_owned()),
            )
        } else {
            plain[i].duplicate()
        };
        let ghost before = domains.deep_view();
        let ghost pushed = state.deep_view();
        domains.push(state);
        assert(pushed == wanted[i as int]);
        assert(domains.deep_view() =~= before.push(pushed));
        assert(wanted.take(i + 1) =~= wanted.take(i as int).push(wanted[i as int]));
        i += 1;
    }
    assert(wanted.take(i as int) =~= wanted);
    let mut next = block_base(previous, generation, wal_status);
    next.ports.insert(port.port_id.duplicate(), port.duplicate());
    next.port_statuses.insert(
        port.port_id.duplicate(),
        port_runtime_status(
            port.port_id.as_str(),
            port.ifname.as_str(),
            generation,
            None,
            port.managed_domains.duplicate(),
            "blocked",
            Some(reason.to_owned()),
            domains,
        ),
    );
    next
}

/// The answer to a deletion that failed.
pub open spec fn failed_delete(port: ManagedNeutronPortModel, error: Seq<char>) -> (
    ReplyStatus,
    DeleteResponseModel,
) {
    (
        ReplyStatus::InternalServerError,
        DeleteResponseModel {
            port_id: port.port_id,
            ifname: Some(port.ifname),
            detached: false,
            status: "error"@,
            error: Some(error),
        },
    )
}

/// Answers a deletion that failed.
pub fn failed_neutron_delete(port: &ManagedNeutronPort, error: String) -> (r: (
    ReplyStatus,
    NeutronDeleteResponse,
))
    ensures
        (r.0, r.1.deep_view()) == failed_delete(port.deep_view(), error@),
{
    (
        ReplyStatus::InternalServerError,
        NeutronDeleteResponse {
            port_id: port.port_id.duplicate(),
            ifname: Some(port.ifname.duplicate()),
            detached: false,
            status: "error".to_owned(),
            error: Some(error),
        },
    )
}

/// What deleting a port has to do next.
#[derive(Debug, PartialEq, Eq)]
pub enum DeleteStep {
    /// Log that the port is to be deleted.
    LogIntent {
        port_id: String,
        generation: u64,
        affected_domains: Vec<String>,
        port: ManagedNeutronPort,
    },
    /// Ask for an injected fault at the named point.
    CheckFault(&'static str),
    /// Ask whether the interface is still there.
    ReadInterface { ifname: String },
    /// Scrub the rules of the port.
    Purge { ifname: String, port_id: String },
    /// Detach the interface.
    Detach { ifname: String },
    /// Log the state without the port.
    CommitDelete { state: NeutronWalState },
    /// Log the blocked state.
    Checkpoint { state: NeutronWalState },
    /// Publish the runtime, if there is one, and answer.
    Finish {
        runtime: Option<NeutronRuntimeState>,
        status: ReplyStatus,
        response: NeutronDeleteResponse,
    },
}

/// The model of [`DeleteStep`].
pub enum DeleteStepModel {
    LogIntent {
        port_id: Seq<char>,
        generation: u64,
        affected_domains: Seq<Seq<char>>,
        port: ManagedNeutronPortModel,
    },
    CheckFault(Seq<char>),
    ReadInterface { ifname: Seq<char> },
    Purge { ifname: Seq<char>, port_id: Seq<char> },
    Detach { ifname: Seq<char> },
    CommitDelete { state: NeutronWalStateModel },
    Checkpoint { state: NeutronWalStateModel },
    Finish {
        runtime: Option<NeutronRuntimeStateModel>,
        status: ReplyStatus,
        response: DeleteResponseModel,
    },
}

impl DeepView for DeleteStep {
    type V = DeleteStepModel;

    open spec fn deep_view(&self) -> DeleteStepModel {
        match self {
            DeleteStep::LogIntent { port_id, generation, affected_domains, port } => {
                DeleteStepModel::LogIntent {
                    port_id: port_id@,
                    generation: *generation,
                    affected_domains: affected_domains.deep_view(),
                    port: port.deep_view(),
                }
            },
            DeleteStep::CheckFault(point) => DeleteStepModel::CheckFault(point@),
            DeleteStep::ReadInterface { ifname } => {
                DeleteStepModel::ReadInterface { ifname: ifname@ }
            },
            DeleteStep::Purge { ifname, port_id } => {
                DeleteStepModel::Purge { ifname: ifname@, port_id: port_id@ }
            },
            DeleteStep::Detach { ifname } => DeleteStepModel::Detach { ifname: ifname@ },
            DeleteStep::CommitDelete { state } => {
                DeleteStepModel::CommitDelete { state: state.deep_view() }
            },
            DeleteStep::Checkpoint { state } => {
                DeleteStepModel::Checkpoint { state: state.deep_view() }
            },
            DeleteStep::Finish { runtime, status, response } => {
                DeleteStepModel::Finish {
                    runtime: runtime.deep_view(),
                    status: *status,
                    response: response.deep_view(),
                }
            },
        }
    }
}

/// What a deletion that failed has to do next: log the blocked state, then publish it and answer.
pub open spec fn delete_failure_step(
    previous: NeutronRuntimeStateModel,
    port: ManagedNeutronPortModel,
    generation: u64,
    wal_status: Seq<char>,
    reason: Seq<char>,
    acl_action: Seq<char>,
    checkpoint: Option<OutcomeModel>,
) -> DeleteStepModel {
    let blocked = blocked_delete(previous, port, generation, wal_status, reason, acl_action);
    match checkpoint {
        None => DeleteStepModel::Checkpoint { state: wal_of_runtime(blocked) },
        Some(OutcomeModel::Done) => DeleteStepModel::Finish {
            runtime: Some(blocked),
            status: failed_delete(port, reason).0,
            response: failed_delete(port, reason).1,
        },
        Some(OutcomeModel::Failed(error)) => {
            let details = reason + "; delete_blocked_checkpoint_failed:"@ + error;
            DeleteStepModel::Finish {
                runtime: Some(
                    NeutronRuntimeStateModel {
                        wal_status: "delete_blocked_checkpoint_failed"@,
                        ..blocked
                    },
                ),
                status: failed_delete(port, details).0,
                response: failed_delete(port, details).1,
            }
        },
    }
}

/// Tells what a deletion that failed has to do next.
pub fn publish_blocked_delete_failure(
    previous: &NeutronRuntimeState,
    port: &ManagedNeutronPort,
    generation: u64,
    wal_status: &str,
    reason: &str,
    acl_effective_action: &str,
    checkpoint: &Option<HostOutcome>,
) -> (r: DeleteStep)
    ensures
        r.deep_view() == delete_failure_step(
            previous.deep_view(),
            port.deep_view(),
            generation,
            wal_status@,
            reason@,
            acl_effective_action@,
            checkpoint.deep_view(),
        ),
{
    let mut blocked = build_blocked_delete_runtime(
        previous,
        port,
        generation,
        wal_status,
        reason,
        acl_effective_action,
    );
    match checkpoint {
        None => DeleteStep::Checkpoint { state: blocked.to_wal_state() },
        Some(HostOutcome::Done) => {
            let (status, response) = failed_neutron_delete(port, reason.to_owned());
            DeleteStep::Finish { runtime: Some(blocked), status, response }
        },
        Some(HostOutcome::Failed(error)) => {
            blocked.wal_status = "delete_blocked_checkpoint_failed".to_owned();
            let mut details = reason.to_owned();
            details.append("; delete_blocked_checkpoint_failed:");
            details.append(error.as_str());
            let (status, response) = failed_neutron_delete(port, details);
            DeleteStep::Finish { runtime: Some(blocked), status, response }
        },
    }
}

/// The answer to a deletion that succeeded.
pub open spec fn deleted_response(port: ManagedNeutronPortModel) -> DeleteResponseModel {
    DeleteResponseModel {
        port_id: port.port_id,
        ifname: Some(port.ifname),
        detached: true,
        status: "ok"@,
        error: None,
    }
}

/// What is to be done once the interface of a port is detached: the port is gone only once that
/// is logged.
pub open spec fn detached_delete_step(
    previous: NeutronRuntimeStateModel,
    port: ManagedNeutronPortModel,
    generation: u64,
    precommit: OutcomeModel,
    commit: Option<OutcomeModel>,
    checkpoint: Option<OutcomeModel>,
) -> DeleteStepModel {
    let deleted = deleted_runtime(previous, port.port_id);
    match precommit {
        OutcomeModel::Failed(error) => delete_failure_step(
            previous,
            port,
            generation,
            "delete_after_detach_failed"@,
            error,
            "bypass"@,
            checkpoint,
        ),
        OutcomeModel::Done => match commit {
            None => DeleteStepModel::CommitDelete { state: wal_of_runtime(deleted) },
            Some(OutcomeModel::Failed(error)) => delete_failure_step(
                previous,
                port,
                generation,
                "delete_commit_failed"@,
                "wal_commit_failed:"@ + error,
                "bypass"@,
                checkpoint,
            ),
            Some(OutcomeModel::Done) => DeleteStepModel::Finish {
                runtime: Some(deleted),
                status: ReplyStatus::Success,
                response: deleted_response(port),
            },
        },
    }
}

/// Tells what is to be done once the interface of a port is detached.
pub fn finalize_detached_neutron_delete(
    previous: &NeutronRuntimeState,
    port: &ManagedNeutronPort,
    generation: u64,
    precommit: &HostOutcome,
    commit: &Option<HostOutcome>,
    checkpoint: &Option<HostOutcome>,
) -> (r: DeleteStep)
    ensures
        r.deep_view() == detached_delete_step(
            previous.deep_view(),
            port.deep_view(),
            generation,
            precommit.deep_view(),
            commit.deep_view(),
            checkpoint.deep_view(),
        ),
{
    if let HostOutcome::Failed(error) = precommit {
        return publish_blocked_delete_failure(
            previous,
            port,
            generation,
            "delete_after_detach_failed",
            error.as_str(),
            "bypass",
            checkpoint,
        );
    }
    let deleted = build_committed_delete_runtime(previous, &port.port_id);
    match commit {
        None => DeleteStep::CommitDelete { state: deleted.to_wal_state() },
        Some(HostOutcome::Failed(error)) => {
            let mut reason = "wal_commit_failed:".to_owned();
            reason.append(error.as_str());
            publish_blocked_delete_failure(
                previous,
                port,
                generation,
                "delete_commit_failed",
                reason.as_str(),
                "bypass",
                checkpoint,
            )
        },
        Some(HostOutcome::Done) => DeleteStep::Finish {
            runtime: Some(deleted),
            status: ReplyStatus::Success,
            response: NeutronDeleteResponse {
                port_id: port.port_id.duplicate(),
                ifname: Some(port.ifname.duplicate()),
                detached: true,
                status: "ok".to_owned(),
                error: None,
            },
        },
    }
}

/// What came of the steps of a deletion.
#[derive(Debug)]
pub struct DeleteHistory {
    pub intent: Option<HostOutcome>,
    pub intent_fault: Option<HostOutcome>,
    /// Whether the interface is still there.
    pub interface_exists: Option<bool>,
    pub purged: Option<Result<(), NeutronAclReconcileError>>,
    pub purge_fault: Option<HostOutcome>,
    pub detached: Option<HostOutcome>,
    pub precommit: Option<HostOutcome>,
    pub commit: Option<HostOutcome>,
    pub checkpoint: Option<HostOutcome>,
}

/// The model of [`DeleteHistory`].
#[verifier::ext_equal]
pub struct DeleteHistoryModel {
    pub intent: Option<OutcomeModel>,
    pub intent_fault: Option<OutcomeModel>,
    pub interface_exists: Option<bool>,
    pub purged: Option<Result<(), ReconcileErrorModel>>,
    pub purge_fault: Option<OutcomeModel>,
    pub detached: Option<OutcomeModel>,
    pub precommit: Option<OutcomeModel>,
    pub commit: Option<OutcomeModel>,
    pub checkpoint: Option<OutcomeModel>,
}

/// The model of what scrubbing rules came to.
pub open spec fn purge_result(purged: Option<Result<(), NeutronAclReconcileError>>) -> Option<
    Result<(), ReconcileErrorModel>,
> {
    match purged {
        None => None,
        Some(Ok(_)) => Some(Ok(())),
        Some(Err(error)) => Some(Err(error.deep_view())),
    }
}

impl DeepView for DeleteHistory {
    type V = DeleteHistoryModel;

    open spec fn deep_view(&self) -> DeleteHistoryModel {
        DeleteHistoryModel {
            intent: self.intent.deep_view(),
            intent_fault: self.intent_fault.deep_view(),
            interface_exists: self.interface_exists,
            purged: purge_result(self.purged),
            purge_fault: self.purge_fault.deep_view(),
            detached: self.detached.deep_view(),
            precommit: self.precommit.deep_view(),
            commit: self.commit.deep_view(),
            checkpoint: self.checkpoint.deep_view(),
        }
    }
}

/// The history of a deletion that has not begun.
pub open spec fn no_delete_history() -> DeleteHistoryModel {
    DeleteHistoryModel {
        intent: None,
        intent_fault: None,
        interface_exists: None,
        purged: None,
        purge_fault: None,
        detached: None,
        precommit: None,
        commit: None,
        checkpoint: None,
    }
}

impl Default for DeleteHistory {
    fn default() -> (r: Self)
        ensures
            r.deep_view() == no_delete_history(),
    {
        DeleteHistory {
            intent: None,
            intent_fault: None,
            interface_exists: None,
            purged: None,
            purge_fault: None,
            detached: None,
            precommit: None,
            commit: None,
            checkpoint: None,
        }
    }
}

/// The history with what a fault check at a point came to; other points are none of a deletion.
pub open spec fn delete_fault_noted(
    h: DeleteHistoryModel,
    point: Seq<char>,
    outcome: OutcomeModel,
) -> DeleteHistoryModel {
    if point == "neutron.delete.after_intent"@ {
        DeleteHistoryModel { intent_fault: Some(outcome), ..h }
    } else if point == "neutron.delete.after_acl_purge"@ {
        DeleteHistoryModel { purge_fault: Some(outcome), ..h }
    } else if point == "neutron.delete.after_detach_before_commit"@ {
        DeleteHistoryModel { precommit: Some(outcome), ..h }
    } else {
        h
    }
}

impl DeleteHistory {
    /// Takes note of what a fault check at a point came to.
    pub fn note_fault(&mut self, point: &str, outcome: HostOutcome)
        ensures
            final(self).deep_view() == delete_fault_noted(
                old(self).deep_view(),
                point@,
                outcome.deep_view(),
            ),
    {
        if text_eq(point, "neutron.delete.after_intent") {
            self.intent_fault = Some(outcome);
        } else if text_eq(point, "neutron.delete.after_acl_purge") {
            self.purge_fault = Some(outcome);
        } else if text_eq(point, "neutron.delete.after_detach_before_commit") {
            self.precommit = Some(outcome);
        }
    }
}

/// What is to be done once it is known whether the rules of a port are gone.
pub open spec fn purged_delete_step(
    previous: NeutronRuntimeStateModel,
    port: ManagedNeutronPortModel,
    h: DeleteHistoryModel,
) -> DeleteStepModel {
    let generation = previous.accepted_generation;
    match h.purge_fault {
        None => DeleteStepModel::CheckFault("neutron.delete.after_acl_purge"@),
        Some(OutcomeModel::Failed(error)) => delete_failure_step(
            previous,
            port,
            generation,
            "delete_after_acl_purge_failed"@,
            error,
            "bypass"@,
            h.checkpoint,
        ),
        Some(OutcomeModel::Done) => match h.detached {
            None => DeleteStepModel::Detach { ifname: port.ifname },
            Some(OutcomeModel::Failed(error)) => delete_failure_step(
                previous,
                port,
                generation,
                "delete_detach_failed"@,
                error,
                "bypass"@,
                h.checkpoint,
            ),
            Some(OutcomeModel::Done) => match h.precommit {
                None => DeleteStepModel::CheckFault("neutron.delete.after_detach_before_commit"@),
                Some(precommit) => detached_delete_step(
                    previous,
                    port,
                    generation,
                    precommit,
                    h.commit,
                    h.checkpoint,
                ),
            },
        },
    }
}

/// What deleting a managed port has to do next.
pub open spec fn managed_delete_step(
    previous: NeutronRuntimeStateModel,
    port_id: Seq<char>,
    port: ManagedNeutronPortModel,
    h: DeleteHistoryModel,
) -> DeleteStepModel {
    let generation = previous.accepted_generation;
    match h.intent {
        None => DeleteStepModel::LogIntent {
            port_id,
            generation,
            affected_domains: affected_domains(seq![port]),
            port,
        },
        Some(OutcomeModel::Failed(error)) => {
            let details = "wal_intent_failed:"@ + error;
            DeleteStepModel::Finish {
                runtime: None,
                status: failed_delete(port, details).0,
                response: failed_delete(port, details).1,
            }
        },
        Some(OutcomeModel::Done) => match h.intent_fault {
            None => DeleteStepModel::CheckFault("neutron.delete.after_intent"@),
            Some(OutcomeModel::Failed(error)) => delete_failure_step(
                previous,
                port,
                generation,
                "delete_after_intent_failed"@,
                error,
                "unchanged"@,
                h.checkpoint,
            ),
            Some(OutcomeModel::Done) => match h.interface_exists {
                None => DeleteStepModel::ReadInterface { ifname: port.ifname },
                Some(exists) => if !exists {
                    purged_delete_step(previous, port, h)
                } else {
                    match h.purged {
                        None => DeleteStepModel::Purge {
                            ifname: port.ifname,
                            port_id: port.port_id,
                        },
                        Some(Err(error)) => delete_failure_step(
                            previous,
                            port,
                            generation,
                            "delete_acl_purge_failed"@,
                            "neutron_acl_purge_failed:"@ + error.details,
                            error.effective_action,
                            h.checkpoint,
                        ),
                        Some(Ok(_)) => purged_delete_step(previous, port, h),
                    }
                },
            },
        },
    }
}

/// What deleting a port has to do next, given what came of the earlier steps.
pub open spec fn delete_step(
    previous: NeutronRuntimeStateModel,
    port_id: Seq<char>,
    h: DeleteHistoryModel,
) -> DeleteStepModel {
    match lookup(previous.ports, port_id) {
        None => DeleteStepModel::Finish {
            runtime: None,
            status: ReplyStatus::Success,
            response: DeleteResponseModel {
                port_id,
                ifname: None,
                detached: false,
                status: "not_found"@,
                error: None,
            },
        },
        Some(port) => managed_delete_step(previous, port_id, port, h),
    }
}

fn next_purged_delete_step(
    previous: &NeutronRuntimeState,
    port: &ManagedNeutronPort,
    h: &DeleteHistory,
) -> (r: DeleteStep)
    ensures
        r.deep_view() == purged_delete_step(
            previous.deep_view(),
            port.deep_view(),
            h.deep_view(),
        ),
{
    let generation = previous.accepted_generation;
    match &h.purge_fault {
        None => {
            return DeleteStep::CheckFault("neutron.delete.after_acl_purge");
        },
        Some(HostOutcome::Failed(error)) => {
            return publish_blocked_delete_failure(
                previous,
                port,
                generation,
                "delete_after_acl_purge_failed",
                error.as_str(),
                "bypass",
                &h.checkpoint,
            );
        },
        Some(HostOutcome::Done) => {},
    }
    match &h.detached {
        None => {
            return DeleteStep::Detach { ifname: port.ifname.duplicate() };
        },
        Some(HostOutcome::Failed(error)) => {
            return publish_blocked_delete_failure(
                previous,
                port,
                generation,
                "delete_detach_failed",
                error.as_str(),
                "bypass",
                &h.checkpoint,
            );
        },
        Some(HostOutcome::Done) => {},
    }
    match &h.precommit {
        None => DeleteStep::CheckFault("neutron.delete.after_detach_before_commit"),
        Some(precommit) => finalize_detached_neutron_delete(
            previous,
            port,
            generation,
            precommit,
            &h.commit,
            &h.checkpoint,
        ),
    }
}

/// Tells what deleting a port has to do next.
pub fn apply_delete_neutron_port(
    previous: &NeutronRuntimeState,
    port_id: &String,
    history: &DeleteHistory,
) -> (r: DeleteStep)
    ensures
        r.deep_view() == delete_step(previous.deep_view(), port_id@, history.deep_view()),
{
    let port = match previous.ports.get(port_id) {
        Some(port) => port,
        None => {
            return DeleteStep::Finish {
                runtime: None,
                status: ReplyStatus::Success,
                response: NeutronDeleteResponse {
                    port_id: port_id.duplicate(),
                    ifname: None,
                    detached: false,
                    status: "not_found".to_owned(),
                    error: None,
                },
            };
        },
    };
    let generation = previous.accepted_generation;
    match &history.intent {
        None => {
            let mut ports: Vec<ManagedNeutronPort> = Vec::new();
            ports.push(port.duplicate());
            assert(ports.deep_view() =~= seq![port.deep_view()]);
            return DeleteStep::LogIntent {
                port_id: port_id.duplicate(),
                generation,
                affected_domains: affected_domains_for_ports(&ports),
                port: port.duplicate(),
            };
        },
        Some(HostOutcome::Failed(error)) => {
            let mut details = "wal_intent_failed:".to_owned();
            details.append(error.as_str());
            let (status, response) = failed_neutron_delete(port, details);
            return DeleteStep::Finish { runtime: None, status, response };
        },
        Some(HostOutcome::Done) => {},
    }
    match &history.intent_fault {
        None => {
            return DeleteStep::CheckFault("neutron.delete.after_intent");
        },
        Some(HostOutcome::Failed(error)) => {
            return publish_blocked_delete_failure(
                previous,
                port,
                generation,
                "delete_after_intent_failed",
                error.as_str(),
                "unchanged",
                &history.checkpoint,
            );
        },
        Some(HostOutcome::Done) => {},
    }
    let exists = match history.interface_exists {
        None => {
            return DeleteStep::ReadInterface { ifname: port.ifname.duplicate() };
        },
        Some(exists) => exists,
    };
    if detached_port_cleanup_requires_acl_purge(exists) {
        match &history.purged {
            None => {
                return DeleteStep::Purge {
                    ifname: port.ifname.duplicate(),
                    port_id: port.port_id.duplicate(),
                };
            },
            Some(Err(error)) => {
                let mut reason = "neutron_acl_purge_failed:".to_owned();
                reason.append(error.details.as_str());
                return publish_blocked_delete_failure(
                    previous,
                    port,
                    generation,
                    "delete_acl_purge_failed",
                    reason.as_str(),
                    error.effective_action,
                    &history.checkpoint,
                );
            },
            Some(Ok(_)) => {},
        }
    }
    next_purged_delete_step(previous, port, history)
}

/// The first port that a deletion was about, from the `i`-th identity on: as it is managed, or as
/// the intent has it.
pub open spec fn deletion_target(
    intent: PendingNeutronIntentModel,
    previous: NeutronRuntimeStateModel,
    i: int,
) -> Option<ManagedNeutronPortModel>
    decreases intent.port_ids.len() - i,
{
    if i < 0 || i >= intent.port_ids.len() {
        None
    } else {
        let port_id = intent.port_ids[i];
        match lookup(previous.ports, port_id) {
            Some(port) => Some(port),
            None => match port_named(intent.affected_ports, port_id, 0) {
                Some(port) => Some(port),
                None => deletion_target(intent, previous, i + 1),
            },
        }
    }
}

/// The first port with an identity, from the `i`-th on.
pub open spec fn port_named(
    ports: Seq<ManagedNeutronPortModel>,
    port_id: Seq<char>,
    i: int,
) -> Option<ManagedNeutronPortModel>
    decreases ports.len() - i,
{
    if i < 0 || i >= ports.len() {
        None
    } else if ports[i].port_id == port_id {
        Some(ports[i])
    } else {
        port_named(ports, port_id, i + 1)
    }
}

/// The first domain of a name, from the `i`-th on.
pub open spec fn domain_named(
    domains: Seq<NeutronDomainStatusModel>,
    name: Seq<char>,
    i: int,
) -> Option<NeutronDomainStatusModel>
    decreases domains.len() - i,
{
    if i < 0 || i >= domains.len() {
        None
    } else if domains[i].domain == name {
        Some(domains[i])
    } else {
        domain_named(domains, name, i + 1)
    }
}

/// What the datapath does for a port after a deletion, as the recovery found it.
pub open spec fn recovered_acl_action(
    status: Option<NeutronPortStatusModel>,
    default_action: Seq<char>,
) -> Seq<char> {
    let action = match status {
        Some(status) => match domain_named(status.domains, "acl"@, 0) {
            Some(domain) => domain.effective_action,
            None => None,
        },
        None => None,
    };
    if action == Some("unchanged"@) {
        "unchanged"@
    } else if action == Some("bypass"@) {
        "bypass"@
    } else {
        default_action
    }
}

/// The runtime after a deletion that could not be finished.
pub open spec fn unfinished_delete(
    intent: PendingNeutronIntentModel,
    previous: NeutronRuntimeStateModel,
    recovered: Map<Seq<char>, NeutronPortStatusModel>,
    wal_status: Seq<char>,
    default_action: Seq<char>,
) -> NeutronRuntimeStateModel {
    match deletion_target(intent, previous, 0) {
        None => blocked_delete_base(previous, intent.generation, wal_status),
        Some(port) => {
            let status = lookup(recovered, port.port_id);
            let reason = match status {
                Some(status) => match status.reason {
                    Some(reason) => reason,
                    None => wal_status,
                },
                None => wal_status,
            };
            blocked_delete(
                previous,
                port,
                intent.generation,
                wal_status,
                reason,
                recovered_acl_action(status, default_action),
            )
        },
    }
}

/// The runtime without the first `n` ports of an intent.
pub open spec fn without_ports(
    runtime: NeutronRuntimeStateModel,
    port_ids: Seq<Seq<char>>,
    n: int,
) -> NeutronRuntimeStateModel
    decreases n,
{
    if n <= 0 {
        runtime
    } else {
        let before = without_ports(runtime, port_ids, n - 1);
        NeutronRuntimeStateModel {
            ports: before.ports.remove(port_ids[n - 1]),
            port_statuses: before.port_statuses.remove(port_ids[n - 1]),
            ..before
        }
    }
}

/// The runtime after a deletion that was finished.
pub open spec fn finished_delete(
    intent: PendingNeutronIntentModel,
    previous: NeutronRuntimeStateModel,
) -> NeutronRuntimeStateModel {
    NeutronRuntimeStateModel {
        pending_generation: None,
        desired_hash: previous.applied_desired_hash,
        wal_status: "commit_written"@,
        recovery_cause: None,
        ..without_ports(previous, intent.port_ids, intent.port_ids.len() as int)
    }
}

/// What finishing a deletion after a restart has to do next.
#[derive(Debug, PartialEq, Eq)]
pub enum DeleteFinishStep {
    /// Log the state without the ports.
    CommitDelete { state: NeutronWalState },
    /// Publish the runtime.
    Publish(NeutronRuntimeState),
}

/// The model of [`DeleteFinishStep`].
pub enum DeleteFinishModel {
    CommitDelete { state: NeutronWalStateModel },
    Publish(NeutronRuntimeStateModel),
}

impl DeepView for DeleteFinishStep {
    type V = DeleteFinishModel;

    open spec fn deep_view(&self) -> DeleteFinishModel {
        match self {
            DeleteFinishStep::CommitDelete { state } => {
                DeleteFinishModel::CommitDelete { state: state.deep_view() }
            },
            DeleteFinishStep::Publish(runtime) => DeleteFinishModel::Publish(runtime.deep_view()),
        }
    }
}

/// What finishing a deletion after a restart has to do next, given what came of the earlier steps.
pub open spec fn delete_finish_step(
    intent: PendingNeutronIntentModel,
    previous: NeutronRuntimeStateModel,
    recovered: Map<Seq<char>, NeutronPortStatusModel>,
    recovery_failed: bool,
    commit: Option<OutcomeModel>,
) -> DeleteFinishModel {
    if recovery_failed {
        DeleteFinishModel::Publish(
            unfinished_delete(
                intent,
                previous,
                recovered,
                "intent_recovery_blocked"@,
                "unchanged"@,
            ),
        )
    } else {
        let finished = finished_delete(intent, previous);
        match commit {
            None => DeleteFinishModel::CommitDelete { state: wal_of_runtime(finished) },
            Some(OutcomeModel::Failed(_)) => DeleteFinishModel::Publish(
                unfinished_delete(
                    intent,
                    previous,
                    recovered,
                    "delete_recovery_commit_failed"@,
                    "bypass"@,
                ),
            ),
            Some(OutcomeModel::Done) => DeleteFinishModel::Publish(finished),
        }
    }
}

fn find_port<'a>(ports: &'a Vec<ManagedNeutronPort>, port_id: &String) -> (r: Option<
    &'a ManagedNeutronPort,
>)
    ensures
        r.deep_view() == port_named(ports.deep_view(), port_id@, 0),
{
    let ghost models = ports.deep_view();
    let mut i: usize = 0;
    while i < ports.len()
        invariant
            i <= ports.len(),
            models == ports.deep_view(),
            port_named(models, port_id@, i as int) == port_named(models, port_id@, 0),
        decreases ports.len() - i,
    {
        assert(models[i as int] == ports@[i as int].deep_view());
        if ports[i].port_id.same(port_id) {
            return Some(&ports[i]);
        }
        i += 1;
    }
    None
}

fn find_domain<'a>(domains: &'a Vec<NeutronDomainStatus>, name: &str) -> (r: Option<
    &'a NeutronDomainStatus,
>)
    ensures
        r.deep_view() == domain_named(domains.deep_view(), name@, 0),
{
    let ghost models = domains.deep_view();
    let mut i: usize = 0;
    while i < domains.len()
        invariant
            i <= domains.len(),
            models == domains.deep_view(),
            domain_named(models, name@, i as int) == domain_named(models, name@, 0),
        decreases domains.len() - i,
    {
        assert(models[i as int] == domains@[i as int].deep_view());
        if text_eq(domains[i].domain.as_str(), name) {
            return Some(&domains[i]);
        }
        i += 1;
    }
    None
}

fn find_target<'a>(intent: &'a PendingNeutronIntent, previous: &'a NeutronRuntimeState) -> (r:
    Option<&'a ManagedNeutronPort>)
    ensures
        r.deep_view() == deletion_target(intent.deep_view(), previous.deep_view(), 0),
{
    let ghost model = intent.deep_view();
    let mut i: usize = 0;
    while i < intent.port_ids.len()
        invariant
            i <= intent.port_ids.len(),
            model == intent.deep_view(),
            deletion_target(model, previous.deep_view(), i as int) == deletion_target(
                model,
                previous.deep_view(),
                0,
            ),
        decreases intent.port_ids.len() - i,
    {
        let port_id = &intent.port_ids[i];
        assert(model.port_ids[i as int] == port_id@);
        if let Some(port) = previous.ports.get(port_id) {
            return Some(port);
        }
        if let Some(port) = find_port(&intent.affected_ports, port_id) {
            return Some(port);
        }
        i += 1;
    }
    None
}

fn find_acl_action(status: Option<&NeutronPortStatus>, default_action: &'static str) -> (r:
    &'static str)
    ensures
        r@ == recovered_acl_action(status.deep_view(), default_action@),
{
    let domain = match status {
        Some(status) => find_domain(&status.domains, "acl"),
        None => None,
    };
    let action = match domain {
        Some(domain) => crate::host::as_text(&domain.effective_action),
        None => None,
    };
    match action {
        Some(action) => if text_eq(action, "unchanged") {
            "unchanged"
        } else if text_eq(action, "bypass") {
            "bypass"
        } else {
            default_action
        },
        None => default_action,
    }
}

fn block_unfinished(
    intent: &PendingNeutronIntent,
    previous: &NeutronRuntimeState,
    recovered: &OrderedMap<String, NeutronPortStatus>,
    wal_status: &str,
    default_action: &'static str,
) -> (r: NeutronRuntimeState)
    ensures
        r.deep_view() == unfinished_delete(
            intent.deep_view(),
            previous.deep_view(),
            recovered.deep_view(),
            wal_status@,
            default_action@,
        ),
{
    let port = match find_target(intent, previous) {
        Some(port) => port,
        None => {
            return block_base(previous, intent.generation, wal_status);
        },
    };
    let status = recovered.get(&port.port_id);
    let reason = match status {
        Some(status) => match &status.reason {
            Some(reason) => reason.as_str(),
            None => wal_status,
        },
        None => wal_status,
    };
    let action = find_acl_action(status, default_action);
    build_blocked_delete_runtime(previous, port, intent.generation, wal_status, reason, action)
}

/// Tells what finishing a deletion after a restart has to do next.
pub fn finalize_recovered_delete_intent(
    intent: &PendingNeutronIntent,
    previous: &NeutronRuntimeState,
    recovered: &OrderedMap<String, NeutronPortStatus>,
    recovery_failed: bool,
    commit: &Option<HostOutcome>,
) -> (r: DeleteFinishStep)
    ensures
        r.deep_view() == delete_finish_step(
            intent.deep_view(),
            previous.deep_view(),
            recovered.deep_view(),
            recovery_failed,
            commit.deep_view(),
        ),
{
    if recovery_failed {
        return DeleteFinishStep::Publish(
            block_unfinished(intent, previous, recovered, "intent_recovery_blocked", "unchanged"),
        );
    }
    let ghost start = previous.deep_view();
    let ghost ids = intent.deep_view().port_ids;
    let mut next = previous.duplicate();
    let mut i: usize = 0;
    while i < intent.port_ids.len()
        invariant
            i <= intent.port_ids.len(),
            ids == intent.port_ids.deep_view(),
            next.deep_view() == without_ports(start, ids, i as int),
        decreases intent.port_ids.len() - i,
    {
        assert(ids[i as int] == intent.port_ids@[i as int]@);
        next.ports.remove(&intent.port_ids[i]);
        next.port_statuses.remove(&intent.port_ids[i]);
        i += 1;
    }
    next.pending_generation = None;
    next.desired_hash = previous.applied_desired_hash.duplicate();
    next.wal_status = "commit_written".to_owned();
    next.recovery_cause = None;
    match commit {
        None => DeleteFinishStep::CommitDelete { state: next.to_wal_state() },
        Some(HostOutcome::Failed(_)) => DeleteFinishStep::Publish(
            block_unfinished(
                intent,
                previous,
                recovered,
                "delete_recovery_commit_failed",
                "bypass",
            ),
        ),
        Some(HostOutcome::Done) => DeleteFinishStep::Publish(next),
    }
}

/// A port is gone only once that is logged: as long as the log does not say so, the runtime that
/// is published still has the port, and no success is answered.
pub proof fn ports_are_gone_only_once_logged(
    previous: NeutronRuntimeStateModel,
    port_id: Seq<char>,
    h: DeleteHistoryModel,
)
    requires
        previous.ports.dom().contains(port_id),
        previous.ports[port_id].port_id == port_id,
        delete_step(previous, port_id, h) is Finish,
        h.commit != Some(OutcomeModel::Done),
    ensures
        delete_step(previous, port_id, h)->status == ReplyStatus::InternalServerError,
        !delete_step(previous, port_id, h)->response.detached,
        delete_step(previous, port_id, h)->runtime is Some ==> delete_step(
            previous,
            port_id,
            h,
        )->runtime->0.ports == previous.ports.insert(port_id, previous.ports[port_id]),
{
}

/// Deleting a port keeps all others, their statuses, and what was applied.
pub proof fn deletion_keeps_other_ports(
    previous: NeutronRuntimeStateModel,
    port_id: Seq<char>,
    h: DeleteHistoryModel,
    other: Seq<char>,
)
    requires
        previous.ports.dom().contains(port_id) ==> previous.ports[port_id].port_id == port_id,
        delete_step(previous, port_id, h) is Finish,
        delete_step(previous, port_id, h)->runtime is Some,
        other != port_id,
    ensures
        ({
            let next = delete_step(previous, port_id, h)->runtime->0;
            &&& next.ports.dom().contains(other) == previous.ports.dom().contains(other)
            &&& next.ports[other] == previous.ports[other]
            &&& next.port_statuses.dom().contains(other) == previous.port_statuses.dom().contains(
                other,
            )
            &&& next.port_statuses[other] == previous.port_statuses[other]
            &&& next.accepted_generation == previous.accepted_generation
            &&& next.applied_generation == previous.applied_generation
            &&& next.applied_desired_hash == previous.applied_desired_hash
        }),
{
}

/// A deletion detaches only once the rules are gone, or the interface itself is.
pub proof fn deletion_detaches_after_scrubbing(
    previous: NeutronRuntimeStateModel,
    port_id: Seq<char>,
    h: DeleteHistoryModel,
)
    requires
        delete_step(previous, port_id, h) is Detach,
    ensures
        h.intent == Some(OutcomeModel::Done),
        h.interface_exists == Some(false) || (h.purged is Some && h.purged->0 is Ok),
{
}

/// A fault check that was answered is not asked for again.
pub proof fn delete_fault_checks_are_answered(
    previous: NeutronRuntimeStateModel,
    port_id: Seq<char>,
    h: DeleteHistoryModel,
    outcome: OutcomeModel,
)
    requires
        delete_step(previous, port_id, h) is CheckFault,
    ensures
        delete_step(
            previous,
            port_id,
            delete_fault_noted(h, delete_step(previous, port_id, h)->CheckFault_0, outcome),
        ) != delete_step(previous, port_id, h),
{
    reveal_strlit("neutron.delete.after_intent");
    reveal_strlit("neutron.delete.after_acl_purge");
    reveal_strlit("neutron.delete.after_detach_before_commit");
    assert("neutron.delete.after_intent"@.len() == 27);
    assert("neutron.delete.after_acl_purge"@.len() == 30);
    assert("neutron.delete.after_detach_before_commit"@.len() == 41);
}

} // verus!
