//! Whether a snapshot is taken up, answered at once, or refused.

use crate::host::is_text;
use crate::inventory::{LocalInterfaceInventory, LocalInterfaceInventoryModel};
use crate::model::{
    ManagedNeutronPort, ManagedNeutronPortModel, NeutronPortApplyResultModel, NeutronPortStatus,
    NeutronPortStatusModel, NeutronRuntimeState, NeutronRuntimeStateModel, NeutronSnapshotRequest,
    NeutronSnapshotRequestModel, NeutronSnapshotResponse, NeutronSnapshotResponseModel,
    NeutronWalReplay, NeutronWalReplayModel, NeutronWalStateModel, PendingNeutronIntent,
    PendingNeutronIntentModel,
};
use crate::ordered::{in_order, result_view, OrderedMap, Value};
use crate::plan::{snapshot_plan, SnapshotApplyTransaction, SnapshotApplyTransactionModel};
use crate::recovery::{require_restore_ready, restore_refusal, wal_of_runtime};
use crate::scope::{
    conflict, preflight_refusal, refusal, scope_refusal, snapshot_scope_apply_error,
    validate_snapshot_preflight, ApplyScope, ReplyStatus, ScopeModel, SnapshotApplyError,
    SnapshotApplyErrorModel,
};
use crate::status::{hashes_match, neutron_snapshot_response};
use crate::status_v1::{pending_identity, status_v1_has_complete_pending_identity};
use crate::text::{decimal, text_eq, u64_text};
use crate::transaction::{
    acl_interfaces, build_snapshot_apply_transaction, early_response, fully_applied,
    managed_acl_projection_verification_targets, plan_transaction, snapshot_early_response_for_scope,
    stale_result, unchanged_response,
};
use vstd::prelude::*;
use vstd::string::*;

verus! {

/// How often a snapshot is held against a runtime that keeps changing.
pub const SNAPSHOT_ADMISSION_REVALIDATION_ATTEMPTS: u64 = 3;

/// What must not change between looking at a runtime and changing it.
#[derive(Debug, PartialEq, Eq)]
pub struct SnapshotAdmissionIdentity {
    pub accepted_generation: u64,
    pub applied_generation: u64,
    pub pending_generation: Option<u64>,
    pub desired_hash: Option<String>,
    pub applied_desired_hash: Option<String>,
    pub authority_state: String,
    pub ports: OrderedMap<String, ManagedNeutronPort>,
    pub port_statuses: OrderedMap<String, NeutronPortStatus>,
    pub wal_status: String,
    pub recovery_cause: Option<String>,
    pub wal_replay_failures: u64,
}

/// The model of [`SnapshotAdmissionIdentity`].
#[verifier::ext_equal]
pub struct AdmissionIdentityModel {
    pub accepted_generation: u64,
    pub applied_generation: u64,
    pub pending_generation: Option<u64>,
    pub desired_hash: Option<Seq<char>>,
    pub applied_desired_hash: Option<Seq<char>>,
    pub authority_state: Seq<char>,
    pub ports: Map<Seq<char>, ManagedNeutronPortModel>,
    pub port_statuses: Map<Seq<char>, NeutronPortStatusModel>,
    pub wal_status: Seq<char>,
    pub recovery_cause: Option<Seq<char>>,
    pub wal_replay_failures: u64,
}

impl DeepView for SnapshotAdmissionIdentity {
    type V = AdmissionIdentityModel;

    open spec fn deep_view(&self) -> AdmissionIdentityModel {
        AdmissionIdentityModel {
            accepted_generation: self.accepted_generation,
            applied_generation: self.applied_generation,
            pending_generation: self.pending_generation.deep_view(),
            desired_hash: self.desired_hash.deep_view(),
            applied_desired_hash: self.applied_desired_hash.deep_view(),
            authority_state: self.authority_state.deep_view(),
            ports: self.ports.deep_view(),
            port_statuses: self.port_statuses.deep_view(),
            wal_status: self.wal_status.deep_view(),
            recovery_cause: self.recovery_cause.deep_view(),
            wal_replay_failures: self.wal_replay_failures,
        }
    }
}

impl Value for SnapshotAdmissionIdentity {
    fn duplicate(&self) -> (r: Self) {
        SnapshotAdmissionIdentity {
            accepted_generation: self.accepted_generation,
            applied_generation: self.applied_generation,
            pending_generation: self.pending_generation.duplicate(),
            desired_hash: self.desired_hash.duplicate(),
            applied_desired_hash: self.applied_desired_hash.duplicate(),
            authority_state: self.authority_state.duplicate(),
            ports: self.ports.duplicate(),
            port_statuses: self.port_statuses.duplicate(),
            wal_status: self.wal_status.duplicate(),
            recovery_cause: self.recovery_cause.duplicate(),
            wal_replay_failures: self.wal_replay_failures,
        }
    }

    fn same(&self, other: &Self) -> (r: bool) {
        self.accepted_generation == other.accepted_generation
            && self.applied_generation == other.applied_generation
            && self.pending_generation.same(&other.pending_generation)
            && self.desired_hash.same(&other.desired_hash)
            && self.applied_desired_hash.same(&other.applied_desired_hash)
            && self.authority_state.same(&other.authority_state)
            && self.ports.same(&other.ports)
            && self.port_statuses.same(&other.port_statuses)
            && self.wal_status.same(&other.wal_status)
            && self.recovery_cause.same(&other.recovery_cause)
            && self.wal_replay_failures == other.wal_replay_failures
    }
}

impl Clone for SnapshotAdmissionIdentity {
    fn clone(&self) -> (r: Self)
        ensures
            r.deep_view() == self.deep_view(),
    {
        self.duplicate()
    }
}

/// A snapshot that is ready to be logged and applied.
#[derive(Debug, PartialEq, Eq)]
pub struct PreparedSnapshot {
    pub intent: PendingNeutronIntent,
    pub transaction: SnapshotApplyTransaction,
    pub same_generation_retry: bool,
}

/// The model of [`PreparedSnapshot`].
#[verifier::ext_equal]
pub struct PreparedModel {
    pub intent: PendingNeutronIntentModel,
    pub transaction: SnapshotApplyTransactionModel,
    pub same_generation_retry: bool,
}

impl DeepView for PreparedSnapshot {
    type V = PreparedModel;

    open spec fn deep_view(&self) -> PreparedModel {
        PreparedModel {
            intent: self.intent.deep_view(),
            transaction: self.transaction.deep_view(),
            same_generation_retry: self.same_generation_retry,
        }
    }
}

impl Value for PreparedSnapshot {
    fn duplicate(&self) -> (r: Self) {
        PreparedSnapshot {
            intent: self.intent.duplicate(),
            transaction: self.transaction.duplicate(),
            same_generation_retry: self.same_generation_retry,
        }
    }

    fn same(&self, other: &Self) -> (r: bool) {
        self.intent.same(&other.intent)
            && self.transaction.same(&other.transaction)
            && self.same_generation_retry == other.same_generation_retry
    }
}

impl Clone for PreparedSnapshot {
    fn clone(&self) -> (r: Self)
        ensures
            r.deep_view() == self.deep_view(),
    {
        self.duplicate()
    }
}

/// The identity of a runtime: all of it.
pub open spec fn identity_of(runtime: NeutronRuntimeStateModel) -> AdmissionIdentityModel {
    AdmissionIdentityModel {
        accepted_generation: runtime.accepted_generation,
        applied_generation: runtime.applied_generation,
        pending_generation: runtime.pending_generation,
        desired_hash: runtime.desired_hash,
        applied_desired_hash: runtime.applied_desired_hash,
        authority_state: runtime.authority_state,
        ports: runtime.ports,
        port_statuses: runtime.port_statuses,
        wal_status: runtime.wal_status,
        recovery_cause: runtime.recovery_cause,
        wal_replay_failures: runtime.wal_replay_failures,
    }
}

impl SnapshotAdmissionIdentity {
    /// Takes the identity of a runtime.
    pub fn capture(runtime: &NeutronRuntimeState) -> (r: Self)
        ensures
            r.deep_view() == identity_of(runtime.deep_view()),
    {
        SnapshotAdmissionIdentity {
            accepted_generation: runtime.accepted_generation,
            applied_generation: runtime.applied_generation,
            pending_generation: runtime.pending_generation,
            desired_hash: runtime.desired_hash.duplicate(),
            applied_desired_hash: runtime.applied_desired_hash.duplicate(),
            authority_state: runtime.authority_state.duplicate(),
            ports: runtime.ports.duplicate(),
            port_statuses: runtime.port_statuses.duplicate(),
            wal_status: runtime.wal_status.duplicate(),
            recovery_cause: runtime.recovery_cause.duplicate(),
            wal_replay_failures: runtime.wal_replay_failures,
        }
    }
}

/// Two runtimes have one identity only if nothing at all differs between them.
pub proof fn identity_tells_every_change(
    a: NeutronRuntimeStateModel,
    b: NeutronRuntimeStateModel,
)
    ensures
        identity_of(a) == identity_of(b) <==> a == b,
{
}

/// The refusal of a snapshot that may not be sent again.
pub open spec fn retry_refusal(details: Seq<char>) -> SnapshotApplyErrorModel {
    refusal(ReplyStatus::Conflict, "snapshot_retry_not_safe"@, details)
}

/// Refuses a snapshot that may not be sent again.
pub fn snapshot_retry_not_safe(details: &str) -> (r: SnapshotApplyError)
    ensures
        r.deep_view() == retry_refusal(details@),
{
    conflict("snapshot_retry_not_safe", details)
}

/// True when a runtime is a plain partly applied snapshot.
pub open spec fn plain_partial(runtime: NeutronRuntimeStateModel) -> bool {
    &&& runtime.authority_state == "partial"@
    &&& runtime.recovery_cause is None
    &&& runtime.wal_replay_failures == 0
    &&& runtime.pending_generation == Some(runtime.accepted_generation)
    &&& pending_identity(runtime)
}

/// The refusal of anything but a plain partly applied snapshot.
pub open spec fn not_plain_refusal() -> SnapshotApplyErrorModel {
    retry_refusal("pending snapshot is not a complete ordinary partial transaction"@)
}

/// Why a partly applied snapshot may not be sent again, if it may not: the log has to say exactly
/// what the runtime says.
pub open spec fn barrier_refusal(
    runtime: NeutronRuntimeStateModel,
    replay: NeutronWalReplayModel,
) -> Option<SnapshotApplyErrorModel> {
    if !plain_partial(runtime) {
        Some(not_plain_refusal())
    } else if replay.failures > 0 {
        Some(
            retry_refusal(
                "Neutron WAL replay reported "@ + decimal(replay.failures as nat) + " failure(s)"@,
            ),
        )
    } else if replay.pending_intent is Some {
        Some(retry_refusal("Neutron WAL contains an unresolved intent"@))
    } else if (NeutronWalStateModel { status_hash: None, ..replay.state }) != wal_of_runtime(
        runtime,
    ) {
        Some(
            retry_refusal("durable Neutron WAL state does not match the live partial state"@),
        )
    } else {
        None
    }
}

/// Checks that a runtime is a plain partly applied snapshot.
pub fn validate_plain_partial(runtime: &NeutronRuntimeState) -> (r: Result<(), SnapshotApplyError>)
    ensures
        match r {
            Ok(_) => plain_partial(runtime.deep_view()),
            Err(error) => !plain_partial(runtime.deep_view()) && error.deep_view()
                == not_plain_refusal(),
        },
{
    let pending_accepted = match runtime.pending_generation {
        Some(pending) => pending == runtime.accepted_generation,
        None => false,
    };
    if !text_eq(runtime.authority_state.as_str(), "partial") || runtime.recovery_cause.is_some()
        || runtime.wal_replay_failures > 0 || !pending_accepted
        || !status_v1_has_complete_pending_identity(runtime) {
        return Err(
            snapshot_retry_not_safe(
                "pending snapshot is not a complete ordinary partial transaction",
            ),
        );
    }
    Ok(())
}

/// Checks that a partly applied snapshot may be sent again.
pub fn validate_durable_partial_retry_barrier(
    runtime: &NeutronRuntimeState,
    replay: &NeutronWalReplay,
) -> (r: Result<(), SnapshotApplyError>)
    ensures
        match r {
            Ok(_) => barrier_refusal(runtime.deep_view(), replay.deep_view()) is None,
            Err(error) => barrier_refusal(runtime.deep_view(), replay.deep_view()) == Some(
                error.deep_view(),
            ),
        },
{
    if let Err(error) = validate_plain_partial(runtime) {
        return Err(error);
    }
    if replay.failures > 0 {
        let mut details = "Neutron WAL replay reported ".to_owned();
        details.append(u64_text(replay.failures).as_str());
        details.append(" failure(s)");
        return Err(snapshot_retry_not_safe(details.as_str()));
    }
    if replay.pending_intent.is_some() {
        return Err(snapshot_retry_not_safe("Neutron WAL contains an unresolved intent"));
    }
    let mut durable = replay.state.duplicate();
    durable.status_hash = None;
    if !durable.same(&runtime.to_wal_state()) {
        return Err(
            snapshot_retry_not_safe(
                "durable Neutron WAL state does not match the live partial state",
            ),
        );
    }
    Ok(())
}

/// How a snapshot stands to what is pending.
#[derive(Debug, PartialEq, Eq)]
pub enum PendingSnapshotDisposition {
    /// Nothing is pending.
    Fresh,
    /// It is the one that is being applied.
    Deduplicated(NeutronSnapshotResponse),
    /// It is the one that was partly applied.
    RetryablePartial,
}

/// The model of [`PendingSnapshotDisposition`].
pub enum DispositionModel {
    Fresh,
    Deduplicated(NeutronSnapshotResponseModel),
    RetryablePartial,
}

impl DeepView for PendingSnapshotDisposition {
    type V = DispositionModel;

    open spec fn deep_view(&self) -> DispositionModel {
        match self {
            PendingSnapshotDisposition::Fresh => DispositionModel::Fresh,
            PendingSnapshotDisposition::Deduplicated(response) => {
                DispositionModel::Deduplicated(response.deep_view())
            },
            PendingSnapshotDisposition::RetryablePartial => DispositionModel::RetryablePartial,
        }
    }
}

/// How a snapshot stands to what is pending, or why it is refused.
pub open spec fn disposition(
    runtime: NeutronRuntimeStateModel,
    snapshot: NeutronSnapshotRequestModel,
    requested_hash: Option<Seq<char>>,
) -> Result<DispositionModel, SnapshotApplyErrorModel> {
    match runtime.pending_generation {
        None => Ok(DispositionModel::Fresh),
        Some(pending) => if snapshot.generation != pending || requested_hash
            != runtime.desired_hash {
            Err(
                refusal(
                    ReplyStatus::Conflict,
                    "snapshot_apply_in_progress"@,
                    "pending generation "@ + decimal(pending as nat) + " is still applying"@,
                ),
            )
        } else if runtime.authority_state == "partial"@ {
            Ok(DispositionModel::RetryablePartial)
        } else if runtime.authority_state != "applying"@ && runtime.authority_state
            != "accepted"@ {
            Err(
                retry_refusal(
                    "pending generation "@ + decimal(pending as nat)
                        + " is in non-retryable state "@ + runtime.authority_state,
                ),
            )
        } else {
            Ok(
                DispositionModel::Deduplicated(
                    unchanged_response(
                        runtime,
                        pending,
                        requested_hash,
                        "pending"@,
                        Seq::empty(),
                    ),
                ),
            )
        },
    }
}

fn plain_response(
    runtime: &NeutronRuntimeState,
    generation: u64,
    requested_hash: &Option<String>,
    status: &str,
) -> (r: NeutronSnapshotResponse)
    ensures
        r.deep_view() == unchanged_response(
            runtime.deep_view(),
            generation,
            requested_hash.deep_view(),
            status@,
            Seq::empty(),
        ),
{
    let results = Vec::new();
    assert(results.deep_view() =~= Seq::<NeutronPortApplyResultModel>::empty());
    let active: Vec<String> = Vec::new();
    assert(active.deep_view() =~= Seq::<Seq<char>>::empty());
    neutron_snapshot_response(
        generation,
        requested_hash.duplicate(),
        runtime.accepted_generation,
        runtime.applied_generation,
        status,
        results,
        active,
    )
}

/// Tells how a snapshot stands to what is pending.
pub fn pending_snapshot_submit_disposition(
    runtime: &NeutronRuntimeState,
    snapshot: &NeutronSnapshotRequest,
    requested_hash: &Option<String>,
) -> (r: Result<PendingSnapshotDisposition, SnapshotApplyError>)
    ensures
        result_view(r) == disposition(
            runtime.deep_view(),
            snapshot.deep_view(),
            requested_hash.deep_view(),
        ),
{
    let pending = match runtime.pending_generation {
        None => {
            return Ok(PendingSnapshotDisposition::Fresh);
        },
        Some(pending) => pending,
    };
    if snapshot.generation != pending || !hashes_match(requested_hash, &runtime.desired_hash) {
        let mut details = "pending generation ".to_owned();
        details.append(u64_text(pending).as_str());
        details.append(" is still applying");
        return Err(conflict("snapshot_apply_in_progress", details.as_str()));
    }
    let state = runtime.authority_state.as_str();
    if text_eq(state, "partial") {
        return Ok(PendingSnapshotDisposition::RetryablePartial);
    }
    if !text_eq(state, "applying") && !text_eq(state, "accepted") {
        let mut details = "pending generation ".to_owned();
        details.append(u64_text(pending).as_str());
        details.append(" is in non-retryable state ");
        details.append(state);
        return Err(snapshot_retry_not_safe(details.as_str()));
    }
    Ok(
        PendingSnapshotDisposition::Deduplicated(
            plain_response(runtime, pending, requested_hash, "pending"),
        ),
    )
}

/// What a snapshot is answered before the runtime is looked at closely, if it is.
pub open spec fn first_answer(
    restore_ready: bool,
    scope: ScopeModel,
    snapshot: NeutronSnapshotRequestModel,
    runtime: NeutronRuntimeStateModel,
) -> Result<Option<NeutronSnapshotResponseModel>, SnapshotApplyErrorModel> {
    match preflight_refusal(scope, snapshot) {
        Some(error) => Err(error),
        None => if !restore_ready {
            Err(restore_refusal())
        } else {
            match disposition(runtime, snapshot, snapshot.desired_hash) {
                Err(error) => Err(error),
                Ok(DispositionModel::Deduplicated(response)) => Ok(Some(response)),
                Ok(_) => Ok(None),
            }
        },
    }
}

/// Answers a snapshot before the runtime is looked at closely, where that is possible.
pub fn admission_preflight(
    restore_ready: bool,
    scope: &ApplyScope,
    snapshot: &NeutronSnapshotRequest,
    runtime: &NeutronRuntimeState,
) -> (r: Result<Option<NeutronSnapshotResponse>, SnapshotApplyError>)
    ensures
        result_view(r) == first_answer(
            restore_ready,
            scope.deep_view(),
            snapshot.deep_view(),
            runtime.deep_view(),
        ),
{
    if let Err(error) = validate_snapshot_preflight(scope, snapshot) {
        return Err(error);
    }
    if let Err(error) = require_restore_ready(restore_ready) {
        return Err(error);
    }
    match pending_snapshot_submit_disposition(runtime, snapshot, &snapshot.desired_hash) {
        Err(error) => Err(error),
        Ok(PendingSnapshotDisposition::Deduplicated(response)) => Ok(Some(response)),
        Ok(_) => Ok(None),
    }
}

/// What taking up a snapshot has to do next.
#[derive(Debug, PartialEq, Eq)]
pub enum AdmissionStep {
    /// Read the log.
    ReadLog,
    /// Refuse the snapshot.
    Refuse(SnapshotApplyError),
    /// Answer the snapshot without applying it.
    Answer(NeutronSnapshotResponse),
    /// Look at the runtime again from the start.
    Retry,
    /// Go on.
    Proceed,
}

/// The model of [`AdmissionStep`].
pub enum AdmissionStepModel {
    ReadLog,
    Refuse(SnapshotApplyErrorModel),
    Answer(NeutronSnapshotResponseModel),
    Retry,
    Proceed,
}

impl DeepView for AdmissionStep {
    type V = AdmissionStepModel;

    open spec fn deep_view(&self) -> AdmissionStepModel {
        match self {
            AdmissionStep::ReadLog => AdmissionStepModel::ReadLog,
            AdmissionStep::Refuse(error) => AdmissionStepModel::Refuse(error.deep_view()),
            AdmissionStep::Answer(response) => AdmissionStepModel::Answer(response.deep_view()),
            AdmissionStep::Retry => AdmissionStepModel::Retry,
            AdmissionStep::Proceed => AdmissionStepModel::Proceed,
        }
    }
}

/// What has to be done before a partly applied snapshot is sent again.
pub open spec fn retry_step(
    runtime: NeutronRuntimeStateModel,
    replay: Option<NeutronWalReplayModel>,
) -> AdmissionStepModel {
    if !plain_partial(runtime) {
        AdmissionStepModel::Refuse(not_plain_refusal())
    } else {
        match replay {
            None => AdmissionStepModel::ReadLog,
            Some(replay) => match barrier_refusal(runtime, replay) {
                Some(error) => AdmissionStepModel::Refuse(error),
                None => AdmissionStepModel::Proceed,
            },
        }
    }
}

fn next_retry_step(runtime: &NeutronRuntimeState, replay: &Option<NeutronWalReplay>) -> (r:
    AdmissionStep)
    ensures
        r.deep_view() == retry_step(runtime.deep_view(), replay.deep_view()),
{
    match replay {
        None => match validate_plain_partial(runtime) {
            Err(error) => AdmissionStep::Refuse(error),
            Ok(_) => AdmissionStep::ReadLog,
        },
        Some(replay) => match validate_durable_partial_retry_barrier(runtime, replay) {
            Err(error) => AdmissionStep::Refuse(error),
            Ok(_) => AdmissionStep::Proceed,
        },
    }
}

/// What has to be done with a snapshot while the runtime is looked at.
pub open spec fn observation_step(
    runtime: NeutronRuntimeStateModel,
    snapshot: NeutronSnapshotRequestModel,
    replay: Option<NeutronWalReplayModel>,
) -> AdmissionStepModel {
    match disposition(runtime, snapshot, snapshot.desired_hash) {
        Err(error) => AdmissionStepModel::Refuse(error),
        Ok(DispositionModel::Deduplicated(response)) => AdmissionStepModel::Answer(response),
        Ok(DispositionModel::RetryablePartial) => retry_step(runtime, replay),
        Ok(DispositionModel::Fresh) => AdmissionStepModel::Proceed,
    }
}

/// Tells what has to be done with a snapshot while the runtime is looked at.
pub fn observe_admission(
    runtime: &NeutronRuntimeState,
    snapshot: &NeutronSnapshotRequest,
    replay: &Option<NeutronWalReplay>,
) -> (r: AdmissionStep)
    ensures
        r.deep_view() == observation_step(
            runtime.deep_view(),
            snapshot.deep_view(),
            replay.deep_view(),
        ),
{
    match pending_snapshot_submit_disposition(runtime, snapshot, &snapshot.desired_hash) {
        Err(error) => AdmissionStep::Refuse(error),
        Ok(PendingSnapshotDisposition::Deduplicated(response)) => AdmissionStep::Answer(response),
        Ok(PendingSnapshotDisposition::RetryablePartial) => next_retry_step(runtime, replay),
        Ok(PendingSnapshotDisposition::Fresh) => AdmissionStep::Proceed,
    }
}

/// The refusal of a snapshot for a runtime that keeps changing.
pub open spec fn admission_changed_refusal(attempt: u64) -> SnapshotApplyErrorModel {
    refusal(
        ReplyStatus::Conflict,
        "snapshot_admission_changed"@,
        "snapshot admission changed during OVS discovery after "@ + decimal(attempt as nat)
            + " attempts"@,
    )
}

/// What has to be done with a snapshot once the inventory was read: it goes on only if the runtime
/// is still the one that was looked at.
pub open spec fn revalidation_step(
    attempt: u64,
    observed: NeutronRuntimeStateModel,
    current: NeutronRuntimeStateModel,
    snapshot: NeutronSnapshotRequestModel,
    replay: Option<NeutronWalReplayModel>,
) -> AdmissionStepModel {
    if identity_of(current) == identity_of(observed) {
        match disposition(current, snapshot, snapshot.desired_hash) {
            Err(error) => AdmissionStepModel::Refuse(error),
            Ok(DispositionModel::RetryablePartial) => retry_step(current, replay),
            Ok(_) => AdmissionStepModel::Proceed,
        }
    } else if attempt >= SNAPSHOT_ADMISSION_REVALIDATION_ATTEMPTS {
        AdmissionStepModel::Refuse(admission_changed_refusal(attempt))
    } else {
        AdmissionStepModel::Retry
    }
}

/// Tells what has to be done with a snapshot once the inventory was read.
pub fn revalidate_admission(
    attempt: u64,
    observed: &NeutronRuntimeState,
    current: &NeutronRuntimeState,
    snapshot: &NeutronSnapshotRequest,
    replay: &Option<NeutronWalReplay>,
) -> (r: AdmissionStep)
    ensures
        r.deep_view() == revalidation_step(
            attempt,
            observed.deep_view(),
            current.deep_view(),
            snapshot.deep_view(),
            replay.deep_view(),
        ),
{
    let identity = SnapshotAdmissionIdentity::capture(observed);
    if SnapshotAdmissionIdentity::capture(current).same(&identity) {
        return match pending_snapshot_submit_disposition(
            current,
            snapshot,
            &snapshot.desired_hash,
        ) {
            Err(error) => AdmissionStep::Refuse(error),
            Ok(PendingSnapshotDisposition::RetryablePartial) => next_retry_step(current, replay),
            Ok(_) => AdmissionStep::Proceed,
        };
    }
    if attempt >= SNAPSHOT_ADMISSION_REVALIDATION_ATTEMPTS {
        let mut details = "snapshot admission changed during OVS discovery after ".to_owned();
        details.append(u64_text(attempt).as_str());
        details.append(" attempts");
        return AdmissionStep::Refuse(conflict("snapshot_admission_changed", details.as_str()));
    }
    AdmissionStep::Retry
}

/// What is decided on a snapshot that may be taken up.
#[derive(Debug, PartialEq, Eq)]
pub enum AdmissionDecision {
    /// Compare the datapath of the interfaces with their plans.
    VerifyProjection(Vec<String>),
    /// Refuse the snapshot.
    Refuse(SnapshotApplyError),
    /// Answer the snapshot without applying it.
    Answer(NeutronSnapshotResponse),
    /// Log and apply the snapshot.
    Prepare(PreparedSnapshot),
}

/// The model of [`AdmissionDecision`].
pub enum AdmissionDecisionModel {
    VerifyProjection(Seq<Seq<char>>),
    Refuse(SnapshotApplyErrorModel),
    Answer(NeutronSnapshotResponseModel),
    Prepare(PreparedModel),
}

impl DeepView for AdmissionDecision {
    type V = AdmissionDecisionModel;

    open spec fn deep_view(&self) -> AdmissionDecisionModel {
        match self {
            AdmissionDecision::VerifyProjection(targets) => {
                AdmissionDecisionModel::VerifyProjection(targets.deep_view())
            },
            AdmissionDecision::Refuse(error) => AdmissionDecisionModel::Refuse(error.deep_view()),
            AdmissionDecision::Answer(response) => {
                AdmissionDecisionModel::Answer(response.deep_view())
            },
            AdmissionDecision::Prepare(prepared) => {
                AdmissionDecisionModel::Prepare(prepared.deep_view())
            },
        }
    }
}

/// The intent of a transaction: without an inventory it names no port to clean up.
pub open spec fn transaction_intent(
    snapshot: NeutronSnapshotRequestModel,
    transaction: SnapshotApplyTransactionModel,
) -> PendingNeutronIntentModel {
    let waits = transaction.plan.inventory_error is Some;
    PendingNeutronIntentModel {
        kind: "snapshot"@,
        generation: snapshot.generation,
        desired_hash: snapshot.desired_hash,
        port_ids: if waits {
            Seq::empty()
        } else {
            transaction.requested_port_ids
        },
        affected_domains: transaction.affected_domains,
        affected_ports: transaction.affected_ports,
        recovery_cause: if waits {
            Some("inventory_unavailable"@)
        } else {
            None
        },
    }
}

/// A snapshot made ready, or why its ports do not fit its scope.
pub open spec fn preparation(
    scope: ScopeModel,
    runtime: NeutronRuntimeStateModel,
    snapshot: NeutronSnapshotRequestModel,
    inventory: LocalInterfaceInventoryModel,
) -> AdmissionDecisionModel {
    match plan_transaction(
        scope,
        snapshot,
        snapshot_plan(runtime.ports, snapshot, inventory, scope),
    ) {
        Err(error) => AdmissionDecisionModel::Refuse(scope_refusal(error)),
        Ok(transaction) => AdmissionDecisionModel::Prepare(
            PreparedModel {
                intent: transaction_intent(snapshot, transaction),
                transaction,
                same_generation_retry: runtime.authority_state == "partial"@
                    && runtime.pending_generation == Some(snapshot.generation)
                    && runtime.desired_hash == snapshot.desired_hash,
            },
        ),
    }
}

/// What is decided on a snapshot that may be taken up. An answer that nothing changed is given
/// only once the datapath was compared with the plans.
pub open spec fn decision(
    scope: ScopeModel,
    runtime: NeutronRuntimeStateModel,
    snapshot: NeutronSnapshotRequestModel,
    inventory: LocalInterfaceInventoryModel,
    verified: Option<bool>,
) -> AdmissionDecisionModel {
    match early_response(scope, runtime, snapshot, inventory, snapshot.desired_hash) {
        Err(error) => AdmissionDecisionModel::Refuse(error),
        Ok(None) => preparation(scope, runtime, snapshot, inventory),
        Ok(Some(response)) => if response.status != "noop"@ {
            AdmissionDecisionModel::Answer(response)
        } else {
            match verified {
                None => AdmissionDecisionModel::VerifyProjection(
                    in_order::<String>(
                        acl_interfaces(
                            scope,
                            runtime.ports,
                            snapshot.ports,
                            snapshot.ports.len() as int,
                        ),
                    ),
                ),
                Some(true) => AdmissionDecisionModel::Answer(response),
                Some(false) => preparation(scope, runtime, snapshot, inventory),
            }
        },
    }
}

fn prepare(
    scope: &ApplyScope,
    runtime: &NeutronRuntimeState,
    snapshot: &NeutronSnapshotRequest,
    inventory: &LocalInterfaceInventory,
) -> (r: AdmissionDecision)
    ensures
        r.deep_view() == preparation(
            scope.deep_view(),
            runtime.deep_view(),
            snapshot.deep_view(),
            inventory.deep_view(),
        ),
{
    let transaction = match build_snapshot_apply_transaction(
        &runtime.ports,
        snapshot,
        inventory,
        scope.duplicate(),
    ) {
        Ok(transaction) => transaction,
        Err(error) => {
            return AdmissionDecision::Refuse(snapshot_scope_apply_error(error));
        },
    };
    let waits = transaction.plan.inventory_error.is_some();
    let port_ids: Vec<String> = if waits {
        Vec::new()
    } else {
        transaction.requested_port_ids.duplicate()
    };
    assert(waits ==> port_ids.deep_view() =~= Seq::<Seq<char>>::empty());
    let intent = PendingNeutronIntent {
        kind: "snapshot".to_owned(),
        generation: snapshot.generation,
        desired_hash: snapshot.desired_hash.duplicate(),
        port_ids,
        affected_domains: transaction.affected_domains.duplicate(),
        affected_ports: transaction.affected_ports.duplicate(),
        recovery_cause: if waits {
            Some("inventory_unavailable".to_owned())
        } else {
            None
        },
    };
    let pending_same = match runtime.pending_generation {
        Some(pending) => pending == snapshot.generation,
        None => false,
    };
    let same_generation_retry = text_eq(runtime.authority_state.as_str(), "partial")
        && pending_same && hashes_match(&runtime.desired_hash, &snapshot.desired_hash);
    AdmissionDecision::Prepare(PreparedSnapshot { intent, transaction, same_generation_retry })
}

/// Decides on a snapshot that may be taken up.
pub fn decide_admission(
    scope: &ApplyScope,
    runtime: &NeutronRuntimeState,
    snapshot: &NeutronSnapshotRequest,
    inventory: &LocalInterfaceInventory,
    verified: Option<bool>,
) -> (r: AdmissionDecision)
    ensures
        r.deep_view() == decision(
            scope.deep_view(),
            runtime.deep_view(),
            snapshot.deep_view(),
            inventory.deep_view(),
            verified,
        ),
{
    let response = match snapshot_early_response_for_scope(
        scope,
        runtime,
        snapshot,
        inventory,
        &snapshot.desired_hash,
    ) {
        Err(error) => {
            return AdmissionDecision::Refuse(error);
        },
        Ok(None) => {
            return prepare(scope, runtime, snapshot, inventory);
        },
        Ok(Some(response)) => response,
    };
    if !text_eq(response.status.as_str(), "noop") {
        return AdmissionDecision::Answer(response);
    }
    match verified {
        None => AdmissionDecision::VerifyProjection(
            managed_acl_projection_verification_targets(scope, runtime, snapshot),
        ),
        Some(true) => AdmissionDecision::Answer(response),
        Some(false) => prepare(scope, runtime, snapshot, inventory),
    }
}

/// The runtime once the intent of a snapshot is logged.
pub open spec fn accepted_runtime(
    runtime: NeutronRuntimeStateModel,
    snapshot: NeutronSnapshotRequestModel,
) -> NeutronRuntimeStateModel {
    NeutronRuntimeStateModel {
        pending_generation: Some(snapshot.generation),
        desired_hash: snapshot.desired_hash,
        authority_state: "applying"@,
        wal_status: "intent_written"@,
        ..runtime
    }
}

/// Notes in the runtime that the intent of a snapshot is logged, and answers the snapshot.
pub fn accept_snapshot(runtime: &mut NeutronRuntimeState, snapshot: &NeutronSnapshotRequest) -> (r:
    NeutronSnapshotResponse)
    ensures
        final(runtime).deep_view() == accepted_runtime(
            old(runtime).deep_view(),
            snapshot.deep_view(),
        ),
        r.deep_view() == unchanged_response(
            old(runtime).deep_view(),
            snapshot.generation,
            snapshot.deep_view().desired_hash,
            "pending"@,
            Seq::empty(),
        ),
{
    let response = plain_response(
        runtime,
        snapshot.generation,
        &snapshot.desired_hash,
        "pending",
    );
    runtime.pending_generation = Some(snapshot.generation);
    runtime.desired_hash = snapshot.desired_hash.duplicate();
    runtime.authority_state = "applying".to_owned();
    runtime.wal_status = "intent_written".to_owned();
    response
}

/// A snapshot older than what is applied is never applied: it is answered as stale.
pub proof fn stale_snapshots_are_never_applied(
    scope: ScopeModel,
    runtime: NeutronRuntimeStateModel,
    snapshot: NeutronSnapshotRequestModel,
    inventory: LocalInterfaceInventoryModel,
    verified: Option<bool>,
)
    requires
        0 < snapshot.generation < runtime.applied_generation,
    ensures
        decision(scope, runtime, snapshot, inventory, verified) == AdmissionDecisionModel::Answer(
            unchanged_response(
                runtime,
                snapshot.generation,
                snapshot.desired_hash,
                "stale"@,
                seq![stale_result()],
            ),
        ),
{
    reveal_strlit("stale");
    reveal_strlit("noop");
    assert("stale"@.len() == 5 && "noop"@.len() == 4);
}

/// One generation has one desired state: a second one for an applied generation is refused.
pub proof fn one_generation_has_one_desired_state(
    scope: ScopeModel,
    runtime: NeutronRuntimeStateModel,
    snapshot: NeutronSnapshotRequestModel,
    inventory: LocalInterfaceInventoryModel,
    verified: Option<bool>,
)
    requires
        fully_applied(runtime, snapshot.generation),
        snapshot.desired_hash is Some,
        runtime.applied_desired_hash is Some,
        snapshot.desired_hash != runtime.applied_desired_hash,
    ensures
        decision(scope, runtime, snapshot, inventory, verified) is Refuse,
{
}

/// While a snapshot is pending, any other is refused, and the same one is not applied a second
/// time while it is being applied.
pub proof fn pending_snapshots_are_exclusive(
    runtime: NeutronRuntimeStateModel,
    snapshot: NeutronSnapshotRequestModel,
    replay: Option<NeutronWalReplayModel>,
)
    requires
        runtime.pending_generation is Some,
        observation_step(runtime, snapshot, replay) is Proceed,
    ensures
        runtime.pending_generation == Some(snapshot.generation),
        runtime.desired_hash == snapshot.desired_hash,
        plain_partial(runtime),
        replay is Some && barrier_refusal(runtime, replay->0) is None,
{
}

/// A snapshot that waits for the inventory is logged with that cause and without any port to
/// clean up.
pub proof fn inventory_intents_name_no_port(
    scope: ScopeModel,
    runtime: NeutronRuntimeStateModel,
    snapshot: NeutronSnapshotRequestModel,
    inventory: LocalInterfaceInventoryModel,
    verified: Option<bool>,
)
    requires
        decision(scope, runtime, snapshot, inventory, verified) is Prepare,
    ensures
        ({
            let prepared = decision(scope, runtime, snapshot, inventory, verified)->Prepare_0;
            let waits = prepared.transaction.plan.inventory_error is Some;
            &&& is_text(prepared.intent.recovery_cause, "inventory_unavailable"@) == waits
            &&& waits ==> prepared.intent.port_ids.len() == 0
            &&& prepared.intent.generation == snapshot.generation
            &&& prepared.intent.desired_hash == snapshot.desired_hash
            &&& prepared.intent.affected_ports == prepared.transaction.affected_ports
        }),
{
}

} // verus!
