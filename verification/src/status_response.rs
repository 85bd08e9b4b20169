//! The status of the agent as it is reported.

use crate::counters::{CountersModel, NeutronStatusCountersV1};
use crate::model::{
    ManagedNeutronPort, ManagedNeutronPortModel, NeutronRuntimeState, NeutronRuntimeStateModel,
};
use crate::ordered::{values_in_order, Value};
use crate::scope::ReplyStatus;
use crate::status_v1::{
    project_neutron_status_v2, retryable_projection, NeutronStatusOverallReadiness,
    NeutronStatusPortEvidence, NeutronStatusRecoveryCause, NeutronStatusRequiredAction,
    NeutronStatusTransactionState, PortEvidenceModel,
};
use vstd::prelude::*;
use vstd::string::*;

verus! {

/// The version of the report.
pub const NEUTRON_STATUS_SCHEMA_VERSION_MAX: u32 = 3;

/// The status of the agent as it is reported.
#[derive(Debug, PartialEq, Eq)]
pub struct NeutronStatusV1Response {
    pub status_schema_version: u32,
    pub status_contract_hash: String,
    pub transaction_state: NeutronStatusTransactionState,
    pub overall_readiness: NeutronStatusOverallReadiness,
    pub required_action: NeutronStatusRequiredAction,
    pub recovery_cause: Option<NeutronStatusRecoveryCause>,
    pub last_classified_generation: u64,
    pub generation: u64,
    pub accepted_generation: u64,
    pub applied_generation: u64,
    pub pending_generation: Option<u64>,
    pub desired_hash: Option<String>,
    pub applied_desired_hash: Option<String>,
    pub wal_status: String,
    pub wal_replay_failures: u64,
    pub authority_state: String,
    pub managed_ports: Vec<ManagedNeutronPort>,
    pub port_statuses: Vec<NeutronStatusPortEvidence>,
    pub active_instances: Vec<String>,
    pub counters: Option<NeutronStatusCountersV1>,
}

/// The model of [`NeutronStatusV1Response`].
#[verifier::ext_equal]
pub struct StatusResponseModel {
    pub status_schema_version: u32,
    pub status_contract_hash: Seq<char>,
    pub transaction_state: NeutronStatusTransactionState,
    pub overall_readiness: NeutronStatusOverallReadiness,
    pub required_action: NeutronStatusRequiredAction,
    pub recovery_cause: Option<NeutronStatusRecoveryCause>,
    pub last_classified_generation: u64,
    pub generation: u64,
    pub accepted_generation: u64,
    pub applied_generation: u64,
    pub pending_generation: Option<u64>,
    pub desired_hash: Option<Seq<char>>,
    pub applied_desired_hash: Option<Seq<char>>,
    pub wal_status: Seq<char>,
    pub wal_replay_failures: u64,
    pub authority_state: Seq<char>,
    pub managed_ports: Seq<ManagedNeutronPortModel>,
    pub port_statuses: Seq<PortEvidenceModel>,
    pub active_instances: Seq<Seq<char>>,
    pub counters: Option<CountersModel>,
}

impl DeepView for NeutronStatusV1Response {
    type V = StatusResponseModel;

    open spec fn deep_view(&self) -> StatusResponseModel {
        StatusResponseModel {
            status_schema_version: self.status_schema_version,
            status_contract_hash: self.status_contract_hash.deep_view(),
            transaction_state: self.transaction_state.deep_view(),
            overall_readiness: self.overall_readiness.deep_view(),
            required_action: self.required_action.deep_view(),
            recovery_cause: self.recovery_cause.deep_view(),
            last_classified_generation: self.last_classified_generation,
            generation: self.generation,
            accepted_generation: self.accepted_generation,
            applied_generation: self.applied_generation,
            pending_generation: self.pending_generation.deep_view(),
            desired_hash: self.desired_hash.deep_view(),
            applied_desired_hash: self.applied_desired_hash.deep_view(),
            wal_status: self.wal_status.deep_view(),
            wal_replay_failures: self.wal_replay_failures,
            authority_state: self.authority_state.deep_view(),
            managed_ports: self.managed_ports.deep_view(),
            port_statuses: self.port_statuses.deep_view(),
            active_instances: self.active_instances.deep_view(),
            counters: self.counters.deep_view(),
        }
    }
}

impl Value for NeutronStatusV1Response {
    fn duplicate(&self) -> (r: Self) {
        NeutronStatusV1Response {
            status_schema_version: self.status_schema_version,
            status_contract_hash: self.status_contract_hash.duplicate(),
            transaction_state: self.transaction_state.duplicate(),
            overall_readiness: self.overall_readiness.duplicate(),
            required_action: self.required_action.duplicate(),
            recovery_cause: self.recovery_cause.duplicate(),
            last_classified_generation: self.last_classified_generation,
            generation: self.generation,
            accepted_generation: self.accepted_generation,
            applied_generation: self.applied_generation,
            pending_generation: self.pending_generation.duplicate(),
            desired_hash: self.desired_hash.duplicate(),
            applied_desired_hash: self.applied_desired_hash.duplicate(),
            wal_status: self.wal_status.duplicate(),
            wal_replay_failures: self.wal_replay_failures,
            authority_state: self.authority_state.duplicate(),
            managed_ports: self.managed_ports.duplicate(),
            port_statuses: self.port_statuses.duplicate(),
            active_instances: self.active_instances.duplicate(),
            counters: self.counters.duplicate(),
        }
    }

    fn same(&self, other: &Self) -> (r: bool) {
        self.status_schema_version == other.status_schema_version
            && self.status_contract_hash.same(&other.status_contract_hash)
            && self.transaction_state.same(&other.transaction_state)
            && self.overall_readiness.same(&other.overall_readiness)
            && self.required_action.same(&other.required_action)
            && self.recovery_cause.same(&other.recovery_cause)
            && self.last_classified_generation == other.last_classified_generation
            && self.generation == other.generation
            && self.accepted_generation == other.accepted_generation
            && self.applied_generation == other.applied_generation
            && self.pending_generation.same(&other.pending_generation)
            && self.desired_hash.same(&other.desired_hash)
            && self.applied_desired_hash.same(&other.applied_desired_hash)
            && self.wal_status.same(&other.wal_status)
            && self.wal_replay_failures == other.wal_replay_failures
            && self.authority_state.same(&other.authority_state)
            && self.managed_ports.same(&other.managed_ports)
            && self.port_statuses.same(&other.port_statuses)
            && self.active_instances.same(&other.active_instances)
            && self.counters.same(&other.counters)
    }
}

impl Clone for NeutronStatusV1Response {
    fn clone(&self) -> (r: Self)
        ensures
            r.deep_view() == self.deep_view(),
    {
        self.duplicate()
    }
}

/// The name of an authority state; the state of an agent that was never used has none.
pub open spec fn state_name(state: Seq<char>) -> Seq<char> {
    if state.len() == 0 {
        "idle"@
    } else {
        state
    }
}

/// The status of the agent as it is reported.
pub open spec fn status_report(
    runtime: NeutronRuntimeStateModel,
    durable_partial_retryable: bool,
    active_instances: Seq<Seq<char>>,
    counters: Option<CountersModel>,
) -> StatusResponseModel {
    let projection = retryable_projection(runtime, durable_partial_retryable);
    StatusResponseModel {
        status_schema_version: NEUTRON_STATUS_SCHEMA_VERSION_MAX,
        status_contract_hash: "v0.9-neutron-status-3"@,
        transaction_state: projection.transaction_state,
        overall_readiness: projection.overall_readiness,
        required_action: projection.required_action,
        recovery_cause: projection.recovery_cause,
        last_classified_generation: projection.last_classified_generation,
        generation: runtime.applied_generation,
        accepted_generation: runtime.accepted_generation,
        applied_generation: runtime.applied_generation,
        pending_generation: runtime.pending_generation,
        desired_hash: runtime.desired_hash,
        applied_desired_hash: runtime.applied_desired_hash,
        wal_status: runtime.wal_status,
        wal_replay_failures: runtime.wal_replay_failures,
        authority_state: state_name(runtime.authority_state),
        managed_ports: values_in_order::<String, ManagedNeutronPortModel>(runtime.ports),
        port_statuses: projection.port_statuses,
        active_instances,
        counters,
    }
}

/// Reports the status of the agent.
pub fn build_neutron_status_response(
    runtime: &NeutronRuntimeState,
    durable_partial_retryable: bool,
    active_instances: Vec<String>,
    counters: Option<NeutronStatusCountersV1>,
) -> (r: NeutronStatusV1Response)
    ensures
        r.deep_view() == status_report(
            runtime.deep_view(),
            durable_partial_retryable,
            active_instances.deep_view(),
            counters.deep_view(),
        ),
{
    let projection = project_neutron_status_v2(runtime, durable_partial_retryable);
    let authority_state = if runtime.authority_state.as_str().is_empty() {
        "idle".to_owned()
    } else {
        runtime.authority_state.duplicate()
    };
    NeutronStatusV1Response {
        status_schema_version: NEUTRON_STATUS_SCHEMA_VERSION_MAX,
        status_contract_hash: "v0.9-neutron-status-3".to_owned(),
        transaction_state: projection.transaction_state,
        overall_readiness: projection.overall_readiness,
        required_action: projection.required_action,
        recovery_cause: projection.recovery_cause,
        last_classified_generation: projection.last_classified_generation,
        generation: runtime.applied_generation,
        accepted_generation: runtime.accepted_generation,
        applied_generation: runtime.applied_generation,
        pending_generation: runtime.pending_generation,
        desired_hash: runtime.desired_hash.duplicate(),
        applied_desired_hash: runtime.applied_desired_hash.duplicate(),
        wal_status: runtime.wal_status.duplicate(),
        wal_replay_failures: runtime.wal_replay_failures,
        authority_state,
        managed_ports: runtime.ports.values(),
        port_statuses: projection.port_statuses,
        active_instances,
        counters,
    }
}

/// The kind of reply to a request for readiness: success for an agent that is ready, and for no
/// other.
pub fn readiness_reply(readiness: NeutronStatusOverallReadiness) -> (r: ReplyStatus)
    ensures
        r == (if readiness == NeutronStatusOverallReadiness::Ready {
            ReplyStatus::Success
        } else {
            ReplyStatus::ServiceUnavailable
        }),
{
    match readiness {
        NeutronStatusOverallReadiness::Ready => ReplyStatus::Success,
        _ => ReplyStatus::ServiceUnavailable,
    }
}

} // verus!
