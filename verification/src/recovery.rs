//! Between the log and the runtime, and giving up a pending snapshot.

use crate::host::{is_text, string_is, HostOutcome, OutcomeModel};
use crate::model::{
    ManagedNeutronPortModel, NeutronPortStatusModel, NeutronRuntimeState, NeutronRuntimeStateModel,
    NeutronWalReplay, NeutronWalReplayModel, NeutronWalState, NeutronWalStateModel,
    PendingNeutronIntent, PendingNeutronIntentModel,
};
use crate::ordered::{result_view, Value};
use crate::scope::{
    conflict, internal_error, refusal, ReplyStatus, SnapshotApplyError, SnapshotApplyErrorModel,
};
use crate::status::hashes_match;
use crate::text::{decimal, text_eq, u64_text};
use vstd::prelude::*;
use vstd::string::*;

verus! {

/// A request to give up a pending snapshot.
#[derive(Debug, PartialEq, Eq)]
pub struct NeutronRecoverPendingRequest {
    pub expected_pending_generation: u64,
    pub expected_desired_hash: Option<String>,
    pub mode: Option<String>,
}

/// The model of [`NeutronRecoverPendingRequest`].
#[verifier::ext_equal]
pub struct RecoverRequestModel {
    pub expected_pending_generation: u64,
    pub expected_desired_hash: Option<Seq<char>>,
    pub mode: Option<Seq<char>>,
}

impl DeepView for NeutronRecoverPendingRequest {
    type V = RecoverRequestModel;

    open spec fn deep_view(&self) -> RecoverRequestModel {
        RecoverRequestModel {
            expected_pending_generation: self.expected_pending_generation,
            expected_desired_hash: self.expected_desired_hash.deep_view(),
            mode: self.mode.deep_view(),
        }
    }
}

impl Value for NeutronRecoverPendingRequest {
    fn duplicate(&self) -> (r: Self) {
        NeutronRecoverPendingRequest {
            expected_pending_generation: self.expected_pending_generation,
            expected_desired_hash: self.expected_desired_hash.duplicate(),
            mode: self.mode.duplicate(),
        }
    }

    fn same(&self, other: &Self) -> (r: bool) {
        self.expected_pending_generation == other.expected_pending_generation
            && self.expected_desired_hash.same(&other.expected_desired_hash)
            && self.mode.same(&other.mode)
    }
}

impl Clone for NeutronRecoverPendingRequest {
    fn clone(&self) -> (r: Self)
        ensures
            r.deep_view() == self.deep_view(),
    {
        self.duplicate()
    }
}

/// What became of a pending snapshot.
#[derive(Debug, PartialEq, Eq)]
pub struct NeutronRecoverPendingResponse {
    pub status: String,
    pub recovered_generation: u64,
    pub desired_hash: Option<String>,
    pub applied_generation: u64,
    pub applied_desired_hash: Option<String>,
    pub authority_state: String,
    pub wal_status: String,
}

/// The model of [`NeutronRecoverPendingResponse`].
#[verifier::ext_equal]
pub struct RecoverResponseModel {
    pub status: Seq<char>,
    pub recovered_generation: u64,
    pub desired_hash: Option<Seq<char>>,
    pub applied_generation: u64,
    pub applied_desired_hash: Option<Seq<char>>,
    pub authority_state: Seq<char>,
    pub wal_status: Seq<char>,
}

impl DeepView for NeutronRecoverPendingResponse {
    type V = RecoverResponseModel;

    open spec fn deep_view(&self) -> RecoverResponseModel {
        RecoverResponseModel {
            status: self.status.deep_view(),
            recovered_generation: self.recovered_generation,
            desired_hash: self.desired_hash.deep_view(),
            applied_generation: self.applied_generation,
            applied_desired_hash: self.applied_desired_hash.deep_view(),
            authority_state: self.authority_state.deep_view(),
            wal_status: self.wal_status.deep_view(),
        }
    }
}

impl Value for NeutronRecoverPendingResponse {
    fn duplicate(&self) -> (r: Self) {
        NeutronRecoverPendingResponse {
            status: self.status.duplicate(),
            recovered_generation: self.recovered_generation,
            desired_hash: self.desired_hash.duplicate(),
            applied_generation: self.applied_generation,
            applied_desired_hash: self.applied_desired_hash.duplicate(),
            authority_state: self.authority_state.duplicate(),
            wal_status: self.wal_status.duplicate(),
        }
    }

    fn same(&self, other: &Self) -> (r: bool) {
        self.status.same(&other.status)
            && self.recovered_generation == other.recovered_generation
            && self.desired_hash.same(&other.desired_hash)
            && self.applied_generation == other.applied_generation
            && self.applied_desired_hash.same(&other.applied_desired_hash)
            && self.authority_state.same(&other.authority_state)
            && self.wal_status.same(&other.wal_status)
    }
}

impl Clone for NeutronRecoverPendingResponse {
    fn clone(&self) -> (r: Self)
        ensures
            r.deep_view() == self.deep_view(),
    {
        self.duplicate()
    }
}

/// The runtime that a log tells of.
pub open spec fn runtime_of_wal(
    state: NeutronWalStateModel,
    wal_status: Seq<char>,
    wal_replay_failures: u64,
) -> NeutronRuntimeStateModel {
    NeutronRuntimeStateModel {
        accepted_generation: state.accepted_generation,
        applied_generation: state.applied_generation,
        pending_generation: state.pending_generation,
        desired_hash: state.desired_hash,
        applied_desired_hash: state.applied_desired_hash,
        authority_state: state.authority_state,
        ports: state.ports,
        port_statuses: state.port_statuses,
        wal_status,
        recovery_cause: state.recovery_cause,
        wal_replay_failures,
    }
}

/// The runtime that a replayed log tells of.
pub open spec fn replayed_runtime(replay: NeutronWalReplayModel) -> NeutronRuntimeStateModel {
    runtime_of_wal(replay.state, replay.status, replay.failures)
}

/// What a log keeps of a runtime.
pub open spec fn wal_of_runtime(runtime: NeutronRuntimeStateModel) -> NeutronWalStateModel {
    NeutronWalStateModel {
        accepted_generation: runtime.accepted_generation,
        applied_generation: runtime.applied_generation,
        pending_generation: runtime.pending_generation,
        desired_hash: runtime.desired_hash,
        applied_desired_hash: runtime.applied_desired_hash,
        authority_state: runtime.authority_state,
        ports: runtime.ports,
        port_statuses: runtime.port_statuses,
        recovery_cause: runtime.recovery_cause,
        status_hash: None,
    }
}

impl NeutronRuntimeState {
    /// Makes the runtime that a log tells of.
    pub fn from_wal_state(state: NeutronWalState, wal_status: String, wal_replay_failures: u64) -> (r:
        Self)
        ensures
            r.deep_view() == runtime_of_wal(state.deep_view(), wal_status@, wal_replay_failures),
    {
        NeutronRuntimeState {
            accepted_generation: state.accepted_generation,
            applied_generation: state.applied_generation,
            pending_generation: state.pending_generation,
            desired_hash: state.desired_hash,
            applied_desired_hash: state.applied_desired_hash,
            authority_state: state.authority_state,
            ports: state.ports,
            port_statuses: state.port_statuses,
            wal_status,
            recovery_cause: state.recovery_cause,
            wal_replay_failures,
        }
    }

    /// Makes what a log keeps of the runtime.
    pub fn to_wal_state(&self) -> (r: NeutronWalState)
        ensures
            r.deep_view() == wal_of_runtime(self.deep_view()),
    {
        NeutronWalState {
            accepted_generation: self.accepted_generation,
            applied_generation: self.applied_generation,
            pending_generation: self.pending_generation,
            desired_hash: self.desired_hash.duplicate(),
            applied_desired_hash: self.applied_desired_hash.duplicate(),
            authority_state: self.authority_state.duplicate(),
            ports: self.ports.duplicate(),
            port_statuses: self.port_statuses.duplicate(),
            recovery_cause: self.recovery_cause.duplicate(),
            status_hash: None,
        }
    }
}

/// What was logged of a runtime is read back whole: the runtime itself, but for the health of the
/// log, which the reader supplies.
pub proof fn logged_runtime_reads_back(
    runtime: NeutronRuntimeStateModel,
    wal_status: Seq<char>,
    failures: u64,
)
    ensures
        runtime_of_wal(wal_of_runtime(runtime), wal_status, failures) == (
        NeutronRuntimeStateModel { wal_status, wal_replay_failures: failures, ..runtime }),
        runtime_of_wal(
            wal_of_runtime(runtime),
            runtime.wal_status,
            runtime.wal_replay_failures,
        ) == runtime,
        wal_of_runtime(runtime_of_wal(wal_of_runtime(runtime), wal_status, failures))
            == wal_of_runtime(runtime),
{
}

/// The refusal of a request that comes before the runtime is restored.
pub open spec fn restore_refusal() -> SnapshotApplyErrorModel {
    refusal(
        ReplyStatus::ServiceUnavailable,
        "neutron_runtime_restore_in_progress"@,
        "Neutron runtime restore is still in progress; retry the request"@,
    )
}

/// Refuses a request that comes before the runtime is restored.
pub fn require_restore_ready(restore_ready: bool) -> (r: Result<(), SnapshotApplyError>)
    ensures
        match r {
            Ok(_) => restore_ready,
            Err(error) => !restore_ready && error.deep_view() == restore_refusal(),
        },
{
    if restore_ready {
        return Ok(());
    }
    Err(
        SnapshotApplyError {
            status: ReplyStatus::ServiceUnavailable,
            code: "neutron_runtime_restore_in_progress",
            details: "Neutron runtime restore is still in progress; retry the request".to_owned(),
        },
    )
}

/// True when the runtime waits for the inventory and says so throughout.
pub open spec fn typed_inventory_recovery(runtime: NeutronRuntimeStateModel) -> bool {
    &&& is_text(runtime.recovery_cause, "inventory_unavailable"@)
    &&& runtime.wal_status == "inventory_unavailable"@
    &&& runtime.authority_state == "blocked_recovery_required"@
}

/// Whether the runtime waits for the inventory and says so throughout.
pub fn is_typed_inventory_recovery(runtime: &NeutronRuntimeState) -> (r: bool)
    ensures
        r == typed_inventory_recovery(runtime.deep_view()),
{
    string_is(&runtime.recovery_cause, "inventory_unavailable") && text_eq(
        runtime.wal_status.as_str(),
        "inventory_unavailable",
    ) && text_eq(runtime.authority_state.as_str(), "blocked_recovery_required")
}

/// True when a log is ahead of the runtime.
pub open spec fn wal_newer(wal: NeutronWalStateModel, runtime: NeutronRuntimeStateModel) -> bool {
    wal.applied_generation > runtime.applied_generation || wal.accepted_generation
        > runtime.accepted_generation
}

/// Whether a log is ahead of the runtime.
pub fn wal_state_newer_than_runtime(wal: &NeutronWalState, runtime: &NeutronRuntimeState) -> (r: bool)
    ensures
        r == wal_newer(wal.deep_view(), runtime.deep_view()),
{
    wal.applied_generation > runtime.applied_generation || wal.accepted_generation
        > runtime.accepted_generation
}

/// Why a request is not about the pending snapshot, if it is not.
pub open spec fn pending_identity_fault(
    runtime: NeutronRuntimeStateModel,
    request: RecoverRequestModel,
) -> Option<SnapshotApplyErrorModel> {
    match runtime.pending_generation {
        None => Some(
            refusal(ReplyStatus::Conflict, "no_pending_snapshot"@, "no pending generation exists"@),
        ),
        Some(pending) => if pending != request.expected_pending_generation {
            Some(
                refusal(
                    ReplyStatus::Conflict,
                    "pending_generation_mismatch"@,
                    "pending generation "@ + decimal(pending as nat) + " does not match expected "@
                        + decimal(request.expected_pending_generation as nat),
                ),
            )
        } else if runtime.desired_hash != request.expected_desired_hash {
            Some(
                refusal(
                    ReplyStatus::Conflict,
                    "pending_desired_hash_mismatch"@,
                    "pending desired hash does not match expected hash"@,
                ),
            )
        } else {
            None
        },
    }
}

/// Checks that a request is about the pending snapshot.
pub fn validate_pending_recovery_identity(
    runtime: &NeutronRuntimeState,
    request: &NeutronRecoverPendingRequest,
) -> (r: Result<(), SnapshotApplyError>)
    ensures
        match r {
            Ok(_) => pending_identity_fault(runtime.deep_view(), request.deep_view()) is None,
            Err(error) => pending_identity_fault(runtime.deep_view(), request.deep_view()) == Some(
                error.deep_view(),
            ),
        },
{
    let pending = match runtime.pending_generation {
        None => {
            return Err(conflict("no_pending_snapshot", "no pending generation exists"));
        },
        Some(pending) => pending,
    };
    if pending != request.expected_pending_generation {
        let mut details = "pending generation ".to_owned();
        details.append(u64_text(pending).as_str());
        details.append(" does not match expected ");
        details.append(u64_text(request.expected_pending_generation).as_str());
        return Err(conflict("pending_generation_mismatch", details.as_str()));
    }
    if !hashes_match(&runtime.desired_hash, &request.expected_desired_hash) {
        return Err(
            conflict(
                "pending_desired_hash_mismatch",
                "pending desired hash does not match expected hash",
            ),
        );
    }
    Ok(())
}

/// True when nothing was ever applied and the first snapshot waits for the inventory.
pub open spec fn empty_baseline(runtime: NeutronRuntimeStateModel) -> bool {
    &&& runtime.applied_generation == 0
    &&& runtime.authority_state == "blocked_recovery_required"@
    &&& runtime.wal_status == "inventory_unavailable"@
    &&& runtime.applied_desired_hash is None
    &&& runtime.ports == Map::<Seq<char>, ManagedNeutronPortModel>::empty()
    &&& runtime.port_statuses == Map::<Seq<char>, NeutronPortStatusModel>::empty()
}

/// The runtime put back to what was last applied.
pub open spec fn rolled_back(runtime: NeutronRuntimeStateModel) -> NeutronRuntimeStateModel {
    NeutronRuntimeStateModel {
        accepted_generation: runtime.applied_generation,
        pending_generation: None,
        desired_hash: runtime.applied_desired_hash,
        authority_state: "recovered_pending_full_resync_required"@,
        wal_status: "pending_recovered_to_last_applied"@,
        recovery_cause: None,
        ..runtime
    }
}

/// The runtime without its pending snapshot, or why that cannot be had.
pub open spec fn recovered_runtime(
    runtime: NeutronRuntimeStateModel,
    request: RecoverRequestModel,
) -> Result<NeutronRuntimeStateModel, SnapshotApplyErrorModel> {
    match pending_identity_fault(runtime, request) {
        Some(error) => Err(error),
        None => if runtime.applied_generation == 0 && !empty_baseline(runtime) {
            Err(
                refusal(
                    ReplyStatus::Conflict,
                    "no_applied_snapshot_to_restore"@,
                    "cannot recover pending snapshot without an applied baseline"@,
                ),
            )
        } else if runtime.authority_state == "applying"@ || runtime.authority_state
            == "accepted"@ {
            Err(
                refusal(
                    ReplyStatus::Conflict,
                    "pending_snapshot_still_active"@,
                    "pending snapshot is still active in state "@ + runtime.authority_state,
                ),
            )
        } else {
            Ok(rolled_back(runtime))
        },
    }
}

/// Makes the runtime without its pending snapshot.
pub fn recover_pending_runtime(
    runtime: &NeutronRuntimeState,
    request: &NeutronRecoverPendingRequest,
) -> (r: Result<NeutronRuntimeState, SnapshotApplyError>)
    ensures
        result_view(r) == recovered_runtime(runtime.deep_view(), request.deep_view()),
{
    if let Err(error) = validate_pending_recovery_identity(runtime, request) {
        return Err(error);
    }
    let empty = runtime.applied_generation == 0 && text_eq(
        runtime.authority_state.as_str(),
        "blocked_recovery_required",
    ) && text_eq(runtime.wal_status.as_str(), "inventory_unavailable")
        && runtime.applied_desired_hash.is_none() && runtime.ports.is_empty()
        && runtime.port_statuses.is_empty();
    if runtime.applied_generation == 0 && !empty {
        return Err(
            conflict(
                "no_applied_snapshot_to_restore",
                "cannot recover pending snapshot without an applied baseline",
            ),
        );
    }
    if text_eq(runtime.authority_state.as_str(), "applying") || text_eq(
        runtime.authority_state.as_str(),
        "accepted",
    ) {
        let mut details = "pending snapshot is still active in state ".to_owned();
        details.append(runtime.authority_state.as_str());
        return Err(conflict("pending_snapshot_still_active", details.as_str()));
    }
    let mut next = runtime.duplicate();
    next.accepted_generation = runtime.applied_generation;
    next.pending_generation = None;
    next.desired_hash = runtime.applied_desired_hash.duplicate();
    next.authority_state = "recovered_pending_full_resync_required".to_owned();
    next.wal_status = "pending_recovered_to_last_applied".to_owned();
    next.recovery_cause = None;
    Ok(next)
}

/// Why a request is refused before anything is read, if it is.
pub open spec fn recovery_preflight_refusal(
    restore_ready: bool,
    request: RecoverRequestModel,
) -> Option<SnapshotApplyErrorModel> {
    let mode = match request.mode {
        Some(mode) => mode,
        None => "rollback_to_last_applied"@,
    };
    if !restore_ready {
        Some(restore_refusal())
    } else if mode != "rollback_to_last_applied"@ {
        Some(
            refusal(
                ReplyStatus::BadRequest,
                "unsupported_pending_recovery_mode"@,
                "unsupported pending recovery mode "@ + mode,
            ),
        )
    } else {
        None
    }
}

/// Checks a request before anything is read.
pub fn recover_pending_preflight(restore_ready: bool, request: &NeutronRecoverPendingRequest) -> (r:
    Result<(), SnapshotApplyError>)
    ensures
        match r {
            Ok(_) => recovery_preflight_refusal(restore_ready, request.deep_view()) is None,
            Err(error) => recovery_preflight_refusal(restore_ready, request.deep_view()) == Some(
                error.deep_view(),
            ),
        },
{
    if let Err(error) = require_restore_ready(restore_ready) {
        return Err(error);
    }
    let mode = match &request.mode {
        Some(mode) => mode.as_str(),
        None => "rollback_to_last_applied",
    };
    if !text_eq(mode, "rollback_to_last_applied") {
        let mut details = "unsupported pending recovery mode ".to_owned();
        details.append(mode);
        return Err(
            SnapshotApplyError {
                status: ReplyStatus::BadRequest,
                code: "unsupported_pending_recovery_mode",
                details,
            },
        );
    }
    Ok(())
}

/// What giving up a pending snapshot has to do next.
pub enum PendingRecoveryStep {
    /// Log the blocked state behind the protected intent and read the log back.
    CommitInventory { intent: PendingNeutronIntent, state: NeutronWalState },
    /// Log the next state behind the blocked one.
    CommitBehindBarrier { barrier: NeutronWalState, next: NeutronWalState },
    /// Log the next state.
    Commit { next: NeutronWalState },
    /// Publish the runtime and answer.
    Finish {
        runtime: NeutronRuntimeState,
        reply: Result<NeutronRecoverPendingResponse, SnapshotApplyError>,
    },
}

/// The model of [`PendingRecoveryStep`].
pub enum PendingRecoveryStepModel {
    CommitInventory { intent: PendingNeutronIntentModel, state: NeutronWalStateModel },
    CommitBehindBarrier { barrier: NeutronWalStateModel, next: NeutronWalStateModel },
    Commit { next: NeutronWalStateModel },
    Finish {
        runtime: NeutronRuntimeStateModel,
        reply: Result<RecoverResponseModel, SnapshotApplyErrorModel>,
    },
}

impl DeepView for PendingRecoveryStep {
    type V = PendingRecoveryStepModel;

    open spec fn deep_view(&self) -> PendingRecoveryStepModel {
        match self {
            PendingRecoveryStep::CommitInventory { intent, state } => {
                PendingRecoveryStepModel::CommitInventory {
                    intent: intent.deep_view(),
                    state: state.deep_view(),
                }
            },
            PendingRecoveryStep::CommitBehindBarrier { barrier, next } => {
                PendingRecoveryStepModel::CommitBehindBarrier {
                    barrier: barrier.deep_view(),
                    next: next.deep_view(),
                }
            },
            PendingRecoveryStep::Commit { next } => {
                PendingRecoveryStepModel::Commit { next: next.deep_view() }
            },
            PendingRecoveryStep::Finish { runtime, reply } => {
                PendingRecoveryStepModel::Finish {
                    runtime: runtime.deep_view(),
                    reply: result_view(*reply),
                }
            },
        }
    }
}

/// An answer that names the state of a runtime.
pub open spec fn recovery_response(
    status: Seq<char>,
    recovered_generation: u64,
    runtime: NeutronRuntimeStateModel,
) -> RecoverResponseModel {
    RecoverResponseModel {
        status,
        recovered_generation,
        desired_hash: runtime.desired_hash,
        applied_generation: runtime.applied_generation,
        applied_desired_hash: runtime.applied_desired_hash,
        authority_state: runtime.authority_state,
        wal_status: runtime.wal_status,
    }
}

fn respond(status: &str, recovered_generation: u64, runtime: &NeutronRuntimeState) -> (r:
    NeutronRecoverPendingResponse)
    ensures
        r.deep_view() == recovery_response(status@, recovered_generation, runtime.deep_view()),
{
    NeutronRecoverPendingResponse {
        status: status.to_owned(),
        recovered_generation,
        desired_hash: runtime.desired_hash.duplicate(),
        applied_generation: runtime.applied_generation,
        applied_desired_hash: runtime.applied_desired_hash.duplicate(),
        authority_state: runtime.authority_state.duplicate(),
        wal_status: runtime.wal_status.duplicate(),
    }
}

/// The refusal of a recovery that could not be logged.
pub open spec fn recovery_commit_refusal(details: Seq<char>) -> SnapshotApplyErrorModel {
    refusal(ReplyStatus::InternalServerError, "pending_recovery_commit_failed"@, details)
}

/// True when a replayed log holds an intent that waits for the inventory.
pub open spec fn protected_intent(replay: NeutronWalReplayModel) -> bool {
    match replay.pending_intent {
        Some(intent) => is_text(intent.recovery_cause, "inventory_unavailable"@),
        None => false,
    }
}

/// The runtime after a recovery that could not be logged.
pub open spec fn commit_failed_runtime(
    runtime: NeutronRuntimeStateModel,
    inventory: bool,
) -> NeutronRuntimeStateModel {
    if inventory {
        runtime
    } else {
        NeutronRuntimeStateModel {
            authority_state: "pending_recovery_commit_failed"@,
            wal_status: "commit_failed"@,
            ..runtime
        }
    }
}

/// What is to be done once a protected intent is out of the way.
pub open spec fn unprotected_step(
    request: RecoverRequestModel,
    replay: NeutronWalReplayModel,
    runtime: NeutronRuntimeStateModel,
    inventory: bool,
    commit: Option<OutcomeModel>,
) -> PendingRecoveryStepModel {
    if inventory && !typed_inventory_recovery(runtime) {
        PendingRecoveryStepModel::Finish {
            runtime,
            reply: Err(
                recovery_commit_refusal(
                    "inventory recovery requires a clean typed blocked live state"@,
                ),
            ),
        }
    } else if replay.pending_intent is None && wal_newer(replay.state, runtime) {
        let refreshed = replayed_runtime(replay);
        PendingRecoveryStepModel::Finish {
            runtime: refreshed,
            reply: Ok(
                recovery_response("already_committed"@, refreshed.applied_generation, refreshed),
            ),
        }
    } else {
        let base = if runtime.applied_generation == 0 {
            replayed_runtime(replay)
        } else {
            runtime
        };
        match recovered_runtime(base, request) {
            Err(error) => PendingRecoveryStepModel::Finish { runtime, reply: Err(error) },
            Ok(next) => match commit {
                None => if inventory {
                    PendingRecoveryStepModel::CommitBehindBarrier {
                        barrier: wal_of_runtime(runtime),
                        next: wal_of_runtime(next),
                    }
                } else {
                    PendingRecoveryStepModel::Commit { next: wal_of_runtime(next) }
                },
                Some(OutcomeModel::Failed(error)) => PendingRecoveryStepModel::Finish {
                    runtime: commit_failed_runtime(runtime, inventory),
                    reply: Err(recovery_commit_refusal(error)),
                },
                Some(OutcomeModel::Done) => PendingRecoveryStepModel::Finish {
                    runtime: next,
                    reply: Ok(
                        recovery_response(
                            "recovered"@,
                            request.expected_pending_generation,
                            next,
                        ),
                    ),
                },
            },
        }
    }
}

/// What giving up a pending snapshot has to do next, given what came of the earlier steps.
pub open spec fn pending_recovery_step(
    request: RecoverRequestModel,
    replay: NeutronWalReplayModel,
    runtime: NeutronRuntimeStateModel,
    verified: Option<Result<NeutronWalReplayModel, Seq<char>>>,
    commit: Option<OutcomeModel>,
) -> PendingRecoveryStepModel {
    let protected = protected_intent(replay);
    let inventory = protected || is_text(runtime.recovery_cause, "inventory_unavailable"@)
        || is_text(replay.state.recovery_cause, "inventory_unavailable"@);
    match pending_identity_fault(runtime, request) {
        Some(error) => PendingRecoveryStepModel::Finish { runtime, reply: Err(error) },
        None => if !protected {
            unprotected_step(request, replay, runtime, inventory, commit)
        } else if !typed_inventory_recovery(runtime) {
            PendingRecoveryStepModel::Finish {
                runtime,
                reply: Err(
                    recovery_commit_refusal(
                        "protected inventory intent requires a typed blocked live state"@,
                    ),
                ),
            }
        } else {
            match verified {
                None => PendingRecoveryStepModel::CommitInventory {
                    intent: replay.pending_intent->0,
                    state: wal_of_runtime(runtime),
                },
                Some(Err(error)) => PendingRecoveryStepModel::Finish {
                    runtime,
                    reply: Err(recovery_commit_refusal(error)),
                },
                Some(Ok(read_back)) => {
                    let live = replayed_runtime(read_back);
                    match pending_identity_fault(live, request) {
                        Some(error) => PendingRecoveryStepModel::Finish {
                            runtime,
                            reply: Err(error),
                        },
                        None => unprotected_step(request, read_back, live, inventory, commit),
                    }
                },
            }
        },
    }
}

fn next_unprotected_step(
    request: &NeutronRecoverPendingRequest,
    replay: &NeutronWalReplay,
    runtime: &NeutronRuntimeState,
    inventory: bool,
    commit: &Option<HostOutcome>,
) -> (r: PendingRecoveryStep)
    ensures
        r.deep_view() == unprotected_step(
            request.deep_view(),
            replay.deep_view(),
            runtime.deep_view(),
            inventory,
            commit.deep_view(),
        ),
{
    if inventory && !is_typed_inventory_recovery(runtime) {
        return PendingRecoveryStep::Finish {
            runtime: runtime.duplicate(),
            reply: Err(
                internal_error(
                    "pending_recovery_commit_failed",
                    "inventory recovery requires a clean typed blocked live state",
                ),
            ),
        };
    }
    if replay.pending_intent.is_none() && wal_state_newer_than_runtime(&replay.state, runtime) {
        let refreshed = NeutronRuntimeState::from_wal_state(
            replay.state.duplicate(),
            replay.status.duplicate(),
            replay.failures,
        );
        let reply = respond("already_committed", refreshed.applied_generation, &refreshed);
        return PendingRecoveryStep::Finish { runtime: refreshed, reply: Ok(reply) };
    }
    let recovered = if runtime.applied_generation == 0 {
        let replayed = NeutronRuntimeState::from_wal_state(
            replay.state.duplicate(),
            replay.status.duplicate(),
            replay.failures,
        );
        recover_pending_runtime(&replayed, request)
    } else {
        recover_pending_runtime(runtime, request)
    };
    let next = match recovered {
        Ok(next) => next,
        Err(error) => {
            return PendingRecoveryStep::Finish { runtime: runtime.duplicate(), reply: Err(error) };
        },
    };
    match commit {
        None => if inventory {
            PendingRecoveryStep::CommitBehindBarrier {
                barrier: runtime.to_wal_state(),
                next: next.to_wal_state(),
            }
        } else {
            PendingRecoveryStep::Commit { next: next.to_wal_state() }
        },
        Some(HostOutcome::Failed(error)) => {
            let mut failed = runtime.duplicate();
            if !inventory {
                failed.authority_state = "pending_recovery_commit_failed".to_owned();
                failed.wal_status = "commit_failed".to_owned();
            }
            PendingRecoveryStep::Finish {
                runtime: failed,
                reply: Err(internal_error("pending_recovery_commit_failed", error.as_str())),
            }
        },
        Some(HostOutcome::Done) => {
            let reply = respond("recovered", request.expected_pending_generation, &next);
            PendingRecoveryStep::Finish { runtime: next, reply: Ok(reply) }
        },
    }
}

/// Tells what giving up a pending snapshot has to do next.
pub fn recover_pending_snapshot(
    request: &NeutronRecoverPendingRequest,
    replay: &NeutronWalReplay,
    runtime: &NeutronRuntimeState,
    verified: &Option<Result<NeutronWalReplay, String>>,
    commit: &Option<HostOutcome>,
) -> (r: PendingRecoveryStep)
    ensures
        r.deep_view() == pending_recovery_step(
            request.deep_view(),
            replay.deep_view(),
            runtime.deep_view(),
            match verified {
                None => None,
                Some(result) => Some(result_view(*result)),
            },
            commit.deep_view(),
        ),
{
    if let Err(error) = validate_pending_recovery_identity(runtime, request) {
        return PendingRecoveryStep::Finish { runtime: runtime.duplicate(), reply: Err(error) };
    }
    let protected = match &replay.pending_intent {
        Some(intent) => string_is(&intent.recovery_cause, "inventory_unavailable"),
        None => false,
    };
    let inventory = protected || string_is(&runtime.recovery_cause, "inventory_unavailable")
        || string_is(&replay.state.recovery_cause, "inventory_unavailable");
    let intent = match &replay.pending_intent {
        Some(intent) if protected => intent,
        _ => {
            return next_unprotected_step(request, replay, runtime, inventory, commit);
        },
    };
    if !is_typed_inventory_recovery(runtime) {
        return PendingRecoveryStep::Finish {
            runtime: runtime.duplicate(),
            reply: Err(
                internal_error(
                    "pending_recovery_commit_failed",
                    "protected inventory intent requires a typed blocked live state",
                ),
            ),
        };
    }
    match verified {
        None => PendingRecoveryStep::CommitInventory {
            intent: intent.duplicate(),
            state: runtime.to_wal_state(),
        },
        Some(Err(error)) => PendingRecoveryStep::Finish {
            runtime: runtime.duplicate(),
            reply: Err(internal_error("pending_recovery_commit_failed", error.as_str())),
        },
        Some(Ok(read_back)) => {
            let live = NeutronRuntimeState::from_wal_state(
                read_back.state.duplicate(),
                read_back.status.duplicate(),
                read_back.failures,
            );
            if let Err(error) = validate_pending_recovery_identity(&live, request) {
                return PendingRecoveryStep::Finish {
                    runtime: runtime.duplicate(),
                    reply: Err(error),
                };
            }
            next_unprotected_step(request, read_back, &live, inventory, commit)
        },
    }
}

/// Giving up a pending snapshot never moves or loses what was applied: the ports, their statuses,
/// the applied generation and its hash stay, and nothing is pending or waited for any more.
pub proof fn recovery_keeps_what_was_applied(
    runtime: NeutronRuntimeStateModel,
    request: RecoverRequestModel,
)
    requires
        recovered_runtime(runtime, request) is Ok,
    ensures
        ({
            let next = recovered_runtime(runtime, request)->Ok_0;
            &&& next.applied_generation == runtime.applied_generation
            &&& next.applied_desired_hash == runtime.applied_desired_hash
            &&& next.ports == runtime.ports
            &&& next.port_statuses == runtime.port_statuses
            &&& next.accepted_generation == runtime.applied_generation
            &&& next.desired_hash == runtime.applied_desired_hash
            &&& next.pending_generation is None
            &&& next.recovery_cause is None
        }),
{
}

/// Only a recovery that was logged, or a log that is ahead, is answered with success.
pub proof fn recovery_succeeds_only_when_logged(
    request: RecoverRequestModel,
    replay: NeutronWalReplayModel,
    runtime: NeutronRuntimeStateModel,
    verified: Option<Result<NeutronWalReplayModel, Seq<char>>>,
    commit: Option<OutcomeModel>,
)
    requires
        pending_recovery_step(request, replay, runtime, verified, commit) is Finish,
        pending_recovery_step(request, replay, runtime, verified, commit)->reply is Ok,
    ensures
        commit == Some(OutcomeModel::Done) || ({
            let log = if protected_intent(replay) {
                verified->0->Ok_0
            } else {
                replay
            };
            log.pending_intent is None && pending_recovery_step(
                request,
                replay,
                runtime,
                verified,
                commit,
            )->runtime == replayed_runtime(log)
        }),
{
}

} // verus!
