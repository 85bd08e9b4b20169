//! Carrying an accepted snapshot through, and what is left when that fails.

use crate::apply::{ApplyOutcomeModel, SnapshotRuntimeApplyOutcome};
use crate::host::{is_text, string_is, HostOutcome, OutcomeModel};
use crate::intent::{
    record_recoveries, statuses_after_recovery, IntentPortRecovery, IntentRecoveryStep,
    IntentRecoveryStepModel, RecoveryModel,
};
use crate::model::{
    NeutronDomainStatus, NeutronDomainStatusModel, NeutronPortStatus, NeutronPortStatusModel,
    NeutronRuntimeState, NeutronRuntimeStateModel, NeutronSnapshotRequest,
    NeutronSnapshotRequestModel, NeutronSnapshotResponse, NeutronSnapshotResponseModel,
    NeutronWalState, NeutronWalStateModel, PendingNeutronIntent, PendingNeutronIntentModel,
};
use crate::ordered::{list_contains, result_view, OrderedMap, Value};
use crate::recovery::wal_of_runtime;
use crate::scope::{
    internal_error, refusal, ReplyStatus, SnapshotApplyError, SnapshotApplyErrorModel,
};
use crate::status::{
    domain_state, domain_status_with_action, hashes_match, neutron_snapshot_response,
};
use crate::text::text_eq;
use crate::transaction::{affected_ports_for_intent, ports_of_intent};
use vstd::prelude::*;
use vstd::string::*;

verus! {

/// The runtime that waits for the recovery of a snapshot.
pub open spec fn blocked_snapshot(
    previous: NeutronRuntimeStateModel,
    intent: PendingNeutronIntentModel,
    blocked_statuses: Map<Seq<char>, NeutronPortStatusModel>,
    wal_status: Seq<char>,
) -> NeutronRuntimeStateModel {
    NeutronRuntimeStateModel {
        pending_generation: Some(intent.generation),
        desired_hash: intent.desired_hash,
        authority_state: "blocked_recovery_required"@,
        wal_status,
        port_statuses: previous.port_statuses.union_prefer_right(blocked_statuses),
        ..previous
    }
}

/// Makes the runtime that waits for the recovery of a snapshot.
pub fn build_blocked_snapshot_runtime(
    previous: &NeutronRuntimeState,
    intent: &PendingNeutronIntent,
    blocked_statuses: &OrderedMap<String, NeutronPortStatus>,
    wal_status: &str,
) -> (r: NeutronRuntimeState)
    ensures
        r.deep_view() == blocked_snapshot(
            previous.deep_view(),
            intent.deep_view(),
            blocked_statuses.deep_view(),
            wal_status@,
        ),
{
    let mut blocked = previous.duplicate();
    blocked.pending_generation = Some(intent.generation);
    blocked.desired_hash = intent.desired_hash.duplicate();
    blocked.authority_state = "blocked_recovery_required".to_owned();
    blocked.wal_status = wal_status.to_owned();
    blocked.port_statuses.extend(blocked_statuses);
    blocked
}

/// What is to be done once the intent of a snapshot is logged.
#[derive(Debug, PartialEq, Eq)]
pub enum AfterIntentStep {
    /// Go on.
    Proceed,
    /// Log the blocked state.
    Commit { state: NeutronWalState },
    /// Publish the runtime and fail.
    Fail { runtime: NeutronRuntimeState, error: SnapshotApplyError },
}

/// The model of [`AfterIntentStep`].
pub enum AfterIntentModel {
    Proceed,
    Commit { state: NeutronWalStateModel },
    Fail { runtime: NeutronRuntimeStateModel, error: SnapshotApplyErrorModel },
}

impl DeepView for AfterIntentStep {
    type V = AfterIntentModel;

    open spec fn deep_view(&self) -> AfterIntentModel {
        match self {
            AfterIntentStep::Proceed => AfterIntentModel::Proceed,
            AfterIntentStep::Commit { state } => {
                AfterIntentModel::Commit { state: state.deep_view() }
            },
            AfterIntentStep::Fail { runtime, error } => {
                AfterIntentModel::Fail { runtime: runtime.deep_view(), error: error.deep_view() }
            },
        }
    }
}

/// The failure of a step at which a fault was injected.
pub open spec fn fault_refusal(details: Seq<char>) -> SnapshotApplyErrorModel {
    refusal(ReplyStatus::InternalServerError, "fault_injection"@, details)
}

/// What is to be done once the intent of a snapshot is logged: a fault blocks it before the host
/// is touched.
pub open spec fn after_intent_step(
    intent: PendingNeutronIntentModel,
    previous: NeutronRuntimeStateModel,
    fault: OutcomeModel,
    commit: Option<OutcomeModel>,
) -> AfterIntentModel {
    let blocked = blocked_snapshot(
        previous,
        intent,
        Map::empty(),
        "background_apply_failed:fault_injection"@,
    );
    match fault {
        OutcomeModel::Done => AfterIntentModel::Proceed,
        OutcomeModel::Failed(details) => match commit {
            None => AfterIntentModel::Commit { state: wal_of_runtime(blocked) },
            Some(OutcomeModel::Done) => AfterIntentModel::Fail {
                runtime: blocked,
                error: fault_refusal(details),
            },
            Some(OutcomeModel::Failed(_)) => AfterIntentModel::Fail {
                runtime: NeutronRuntimeStateModel {
                    authority_state: "pending_recovery_commit_failed"@,
                    wal_status: "commit_failed"@,
                    ..blocked
                },
                error: fault_refusal(details),
            },
        },
    }
}

/// Tells what is to be done once the intent of a snapshot is logged.
pub fn handle_snapshot_after_intent_fault(
    intent: &PendingNeutronIntent,
    previous: &NeutronRuntimeState,
    fault: &HostOutcome,
    commit: &Option<HostOutcome>,
) -> (r: AfterIntentStep)
    ensures
        r.deep_view() == after_intent_step(
            intent.deep_view(),
            previous.deep_view(),
            fault.deep_view(),
            commit.deep_view(),
        ),
{
    let details = match fault {
        HostOutcome::Done => {
            return AfterIntentStep::Proceed;
        },
        HostOutcome::Failed(details) => details,
    };
    let none: OrderedMap<String, NeutronPortStatus> = OrderedMap::new();
    let mut blocked = build_blocked_snapshot_runtime(
        previous,
        intent,
        &none,
        "background_apply_failed:fault_injection",
    );
    match commit {
        None => {
            return AfterIntentStep::Commit { state: blocked.to_wal_state() };
        },
        Some(HostOutcome::Done) => {},
        Some(HostOutcome::Failed(_)) => {
            blocked.authority_state = "pending_recovery_commit_failed".to_owned();
            blocked.wal_status = "commit_failed".to_owned();
        },
    }
    AfterIntentStep::Fail {
        runtime: blocked,
        error: internal_error("fault_injection", details.as_str()),
    }
}

/// The state of filtering after a snapshot that could not be committed.
pub open spec fn uncommitted_acl_state(domain: Seq<char>) -> NeutronDomainStatusModel {
    domain_state(
        domain,
        "blocked"@,
        Some("snapshot_commit_failed_acl_bypass"@),
        Some("bypass"@),
    )
}

/// A domain after a snapshot that could not be committed.
pub open spec fn uncommitted_domain(domain: NeutronDomainStatusModel) -> NeutronDomainStatusModel {
    if domain.domain == "acl"@ {
        uncommitted_acl_state(domain.domain)
    } else {
        domain
    }
}

/// True when filtering is among the domains.
pub open spec fn has_acl_state(domains: Seq<NeutronDomainStatusModel>) -> bool {
    exists|i: int| 0 <= i < domains.len() && (#[trigger] domains[i]).domain == "acl"@
}

/// What cleaning up a port comes to where the snapshot could not be committed: it is blocked in
/// any case, and filtering counts as let through.
pub open spec fn uncommitted_recovery(recovery: RecoveryModel) -> RecoveryModel {
    let domains = recovery.domains.map_values(
        |domain: NeutronDomainStatusModel| uncommitted_domain(domain),
    );
    RecoveryModel {
        managed_domains: recovery.managed_domains,
        domains: if !has_acl_state(recovery.domains) && recovery.managed_domains.contains("acl"@) {
            domains.push(uncommitted_acl_state("acl"@))
        } else {
            domains
        },
        status: "blocked"@,
        reason: Some(
            match recovery.reason {
                Some(details) if !recovery.ok => {
                    "snapshot_commit_failed_recovery_required:"@ + details
                },
                _ => "snapshot_commit_failed_recovery_required"@,
            },
        ),
        ok: false,
    }
}

fn block_recovery(recovery: &IntentPortRecovery) -> (r: IntentPortRecovery)
    ensures
        r.deep_view() == uncommitted_recovery(recovery.deep_view()),
{
    let ghost models = recovery.domains.deep_view();
    let ghost wanted = models.map_values(
        |domain: NeutronDomainStatusModel| uncommitted_domain(domain),
    );
    let mut domains: Vec<NeutronDomainStatus> = Vec::new();
    let mut present = false;
    let mut i: usize = 0;
    assert(domains.deep_view() =~= wanted.take(0));
    while i < recovery.domains.len()
        invariant
            i <= recovery.domains.len(),
            models == recovery.domains.deep_view(),
            wanted == models.map_values(
                |domain: NeutronDomainStatusModel| uncommitted_domain(domain),
            ),
            domains.deep_view() == wanted.take(i as int),
            present == exists|j: int| 0 <= j < i && (#[trigger] models[j]).domain == "acl"@,
        decreases recovery.domains.len() - i,
    {
        let domain = &recovery.domains[i];
        assert(models[i as int] == domain.deep_view());
        let next = if text_eq(domain.domain.as_str(), "acl") {
            present = true;
            domain_status_with_action(
                domain.domain.as_str(),
                "blocked",
                Some("snapshot_commit_failed_acl_bypass".to_owned()),
                Some("bypass".to_owned()),
            )
        } else {
            domain.duplicate()
        };
        let ghost before = domains.deep_view();
        let ghost pushed = next.deep_view();
        domains.push(next);
        assert(pushed == wanted[i as int]);
        assert(domains.deep_view() =~= before.push(pushed));
        assert(wanted.take(i + 1) =~= wanted.take(i as int).push(wanted[i as int]));
        i += 1;
    }
    assert(wanted.take(i as int) =~= wanted);
    let acl_name = "acl".to_owned();
    if !present && list_contains(&recovery.managed_domains, &acl_name) {
        let state = domain_status_with_action(
            "acl",
            "blocked",
            Some("snapshot_commit_failed_acl_bypass".to_owned()),
            Some("bypass".to_owned()),
        );
        let ghost pushed = state.deep_view();
        domains.push(state);
        assert(domains.deep_view() =~= wanted.push(pushed));
    }
    let mut reason = "snapshot_commit_failed_recovery_required".to_owned();
    if let Some(details) = &recovery.reason {
        if !recovery.ok {
            reason = "snapshot_commit_failed_recovery_required:".to_owned();
            reason.append(details.as_str());
        }
    }
    IntentPortRecovery {
        managed_domains: recovery.managed_domains.duplicate(),
        domains,
        status: "blocked".to_owned(),
        reason: Some(reason),
        ok: false,
    }
}

/// The runtime after a snapshot that could not be committed.
pub open spec fn uncommitted_runtime(
    intent: PendingNeutronIntentModel,
    previous: NeutronRuntimeStateModel,
    recoveries: Seq<RecoveryModel>,
) -> NeutronRuntimeStateModel {
    let ports = ports_of_intent(intent, previous.ports);
    let statuses = statuses_after_recovery(
        intent,
        Map::empty(),
        ports,
        recoveries.map_values(|recovery: RecoveryModel| uncommitted_recovery(recovery)),
        ports.len() as int,
    );
    if is_text(intent.recovery_cause, "inventory_unavailable"@) {
        NeutronRuntimeStateModel {
            accepted_generation: intent.generation,
            recovery_cause: Some("inventory_unavailable"@),
            ..blocked_snapshot(previous, intent, statuses, "inventory_unavailable"@)
        }
    } else {
        blocked_snapshot(previous, intent, statuses, "commit_failed"@)
    }
}

/// What is to be done after a snapshot that could not be committed, given what came of the earlier
/// steps.
pub open spec fn uncommitted_step(
    intent: PendingNeutronIntentModel,
    previous: NeutronRuntimeStateModel,
    recoveries: Seq<RecoveryModel>,
    commit: Option<OutcomeModel>,
) -> IntentRecoveryStepModel {
    let ports = ports_of_intent(intent, previous.ports);
    if recoveries.len() < ports.len() {
        let port = ports[recoveries.len() as int];
        IntentRecoveryStepModel::RecoverPort {
            port,
            committed_before_intent: previous.ports.dom().contains(port.port_id),
        }
    } else {
        let blocked = uncommitted_runtime(intent, previous, recoveries);
        match commit {
            None => IntentRecoveryStepModel::Commit { state: wal_of_runtime(blocked) },
            Some(OutcomeModel::Done) => IntentRecoveryStepModel::Publish(blocked),
            Some(OutcomeModel::Failed(_)) => IntentRecoveryStepModel::Publish(
                if is_text(intent.recovery_cause, "inventory_unavailable"@) {
                    blocked
                } else {
                    NeutronRuntimeStateModel { wal_status: "recovery_commit_failed"@, ..blocked }
                },
            ),
        }
    }
}

fn block_recoveries(recoveries: &Vec<IntentPortRecovery>) -> (r: Vec<IntentPortRecovery>)
    ensures
        r.deep_view() == recoveries.deep_view().map_values(
            |recovery: RecoveryModel| uncommitted_recovery(recovery),
        ),
{
    let ghost models = recoveries.deep_view();
    let ghost wanted = models.map_values(|recovery: RecoveryModel| uncommitted_recovery(recovery));
    let mut r: Vec<IntentPortRecovery> = Vec::new();
    let mut i: usize = 0;
    assert(r.deep_view() =~= wanted.take(0));
    while i < recoveries.len()
        invariant
            i <= recoveries.len(),
            models == recoveries.deep_view(),
            wanted == models.map_values(
                |recovery: RecoveryModel| uncommitted_recovery(recovery),
            ),
            r.deep_view() == wanted.take(i as int),
        decreases recoveries.len() - i,
    {
        assert(models[i as int] == recoveries@[i as int].deep_view());
        let ghost before = r.deep_view();
        let next = block_recovery(&recoveries[i]);
        let ghost pushed = next.deep_view();
        r.push(next);
        assert(pushed == wanted[i as int]);
        assert(r.deep_view() =~= before.push(pushed));
        assert(wanted.take(i + 1) =~= wanted.take(i as int).push(wanted[i as int]));
        i += 1;
    }
    assert(wanted.take(i as int) =~= wanted);
    r
}

/// Tells what is to be done after a snapshot that could not be committed.
pub fn recover_failed_snapshot_transaction(
    intent: &PendingNeutronIntent,
    previous: &NeutronRuntimeState,
    recoveries: &Vec<IntentPortRecovery>,
    commit: &Option<HostOutcome>,
) -> (r: IntentRecoveryStep)
    ensures
        r.deep_view() == uncommitted_step(
            intent.deep_view(),
            previous.deep_view(),
            recoveries.deep_view(),
            commit.deep_view(),
        ),
{
    let ports = affected_ports_for_intent(intent, &previous.ports);
    assert(ports.deep_view().len() == ports.len());
    assert(recoveries.deep_view().len() == recoveries.len());
    if recoveries.len() < ports.len() {
        let port = &ports[recoveries.len()];
        assert(ports.deep_view()[recoveries.len() as int] == port.deep_view());
        return IntentRecoveryStep::RecoverPort {
            port: port.duplicate(),
            committed_before_intent: previous.ports.contains_key(&port.port_id),
        };
    }
    let blocked_recoveries = block_recoveries(recoveries);
    assert(blocked_recoveries.deep_view().len() == blocked_recoveries.len());
    let mut statuses: OrderedMap<String, NeutronPortStatus> = OrderedMap::new();
    record_recoveries(intent, &mut statuses, &ports, &blocked_recoveries);
    let inventory = string_is(&intent.recovery_cause, "inventory_unavailable");
    let mut blocked = if inventory {
        let mut next = build_blocked_snapshot_runtime(
            previous,
            intent,
            &statuses,
            "inventory_unavailable",
        );
        next.accepted_generation = intent.generation;
        next.recovery_cause = Some("inventory_unavailable".to_owned());
        next
    } else {
        build_blocked_snapshot_runtime(previous, intent, &statuses, "commit_failed")
    };
    match commit {
        None => IntentRecoveryStep::Commit { state: blocked.to_wal_state() },
        Some(HostOutcome::Done) => IntentRecoveryStep::Publish(blocked),
        Some(HostOutcome::Failed(_)) => {
            if !inventory {
                blocked.wal_status = "recovery_commit_failed".to_owned();
            }
            IntentRecoveryStep::Publish(blocked)
        },
    }
}

/// What came of the steps of carrying a snapshot through.
#[derive(Debug)]
pub struct SnapshotHistory {
    pub intent_fault: Option<HostOutcome>,
    /// What logging the state blocked by that fault came to.
    pub blocked_commit: Option<HostOutcome>,
    pub applied: Option<SnapshotRuntimeApplyOutcome>,
    pub commit_fault: Option<HostOutcome>,
    pub commit: Option<HostOutcome>,
    /// The runtime that is left where the snapshot could not be committed.
    pub recovered: Option<NeutronRuntimeState>,
}

/// The model of [`SnapshotHistory`].
#[verifier::ext_equal]
pub struct SnapshotHistoryModel {
    pub intent_fault: Option<OutcomeModel>,
    pub blocked_commit: Option<OutcomeModel>,
    pub applied: Option<ApplyOutcomeModel>,
    pub commit_fault: Option<OutcomeModel>,
    pub commit: Option<OutcomeModel>,
    pub recovered: Option<NeutronRuntimeStateModel>,
}

impl DeepView for SnapshotHistory {
    type V = SnapshotHistoryModel;

    open spec fn deep_view(&self) -> SnapshotHistoryModel {
        SnapshotHistoryModel {
            intent_fault: self.intent_fault.deep_view(),
            blocked_commit: self.blocked_commit.deep_view(),
            applied: self.applied.deep_view(),
            commit_fault: self.commit_fault.deep_view(),
            commit: self.commit.deep_view(),
            recovered: self.recovered.deep_view(),
        }
    }
}

impl Default for SnapshotHistory {
    fn default() -> (r: Self)
        ensures
            r.deep_view() == (SnapshotHistoryModel {
                intent_fault: None,
                blocked_commit: None,
                applied: None,
                commit_fault: None,
                commit: None,
                recovered: None,
            }),
    {
        SnapshotHistory {
            intent_fault: None,
            blocked_commit: None,
            applied: None,
            commit_fault: None,
            commit: None,
            recovered: None,
        }
    }
}

/// What carrying a snapshot through has to do next.
#[derive(Debug, PartialEq, Eq)]
pub enum SnapshotStep {
    /// Ask for an injected fault at the named point.
    CheckFault(&'static str),
    /// Log the state that a fault left.
    CommitBlocked { state: NeutronWalState },
    /// Apply the transaction.
    Apply,
    /// Log what applying came to.
    Commit { state: NeutronWalState },
    /// Clean up the ports of the intent.
    Recover,
    /// Publish the runtime and answer.
    Finish {
        runtime: NeutronRuntimeState,
        reply: Result<NeutronSnapshotResponse, SnapshotApplyError>,
    },
}

/// The model of [`SnapshotStep`].
pub enum SnapshotStepModel {
    CheckFault(Seq<char>),
    CommitBlocked { state: NeutronWalStateModel },
    Apply,
    Commit { state: NeutronWalStateModel },
    Recover,
    Finish {
        runtime: NeutronRuntimeStateModel,
        reply: Result<NeutronSnapshotResponseModel, SnapshotApplyErrorModel>,
    },
}

impl DeepView for SnapshotStep {
    type V = SnapshotStepModel;

    open spec fn deep_view(&self) -> SnapshotStepModel {
        match self {
            SnapshotStep::CheckFault(point) => SnapshotStepModel::CheckFault(point@),
            SnapshotStep::CommitBlocked { state } => {
                SnapshotStepModel::CommitBlocked { state: state.deep_view() }
            },
            SnapshotStep::Apply => SnapshotStepModel::Apply,
            SnapshotStep::Commit { state } => {
                SnapshotStepModel::Commit { state: state.deep_view() }
            },
            SnapshotStep::Recover => SnapshotStepModel::Recover,
            SnapshotStep::Finish { runtime, reply } => {
                SnapshotStepModel::Finish {
                    runtime: runtime.deep_view(),
                    reply: result_view(*reply),
                }
            },
        }
    }
}

/// The answer to a snapshot that was carried through.
pub open spec fn applied_response(
    snapshot: NeutronSnapshotRequestModel,
    outcome: ApplyOutcomeModel,
) -> NeutronSnapshotResponseModel {
    NeutronSnapshotResponseModel {
        generation: snapshot.generation,
        desired_hash: snapshot.desired_hash,
        accepted_generation: snapshot.generation,
        applied_generation: if outcome.has_error {
            outcome.previous_applied_generation
        } else {
            snapshot.generation
        },
        status: if outcome.has_error {
            "partial"@
        } else {
            "ok"@
        },
        results: outcome.results,
        active_instances: Seq::empty(),
    }
}

/// What a snapshot that could not be committed has to do next.
pub open spec fn uncommitted_snapshot_step(
    recovered: Option<NeutronRuntimeStateModel>,
    error: SnapshotApplyErrorModel,
) -> SnapshotStepModel {
    match recovered {
        None => SnapshotStepModel::Recover,
        Some(runtime) => SnapshotStepModel::Finish { runtime, reply: Err(error) },
    }
}

/// What carrying a snapshot through has to do next, given what came of the earlier steps.
pub open spec fn snapshot_step(
    snapshot: NeutronSnapshotRequestModel,
    intent: PendingNeutronIntentModel,
    before: NeutronRuntimeStateModel,
    h: SnapshotHistoryModel,
) -> SnapshotStepModel {
    match h.intent_fault {
        None => SnapshotStepModel::CheckFault("neutron.snapshot.after_intent"@),
        Some(fault) => match after_intent_step(intent, before, fault, h.blocked_commit) {
            AfterIntentModel::Commit { state } => SnapshotStepModel::CommitBlocked { state },
            AfterIntentModel::Fail { runtime, error } => SnapshotStepModel::Finish {
                runtime,
                reply: Err(error),
            },
            AfterIntentModel::Proceed => match h.applied {
                None => SnapshotStepModel::Apply,
                Some(outcome) => match h.commit_fault {
                    None => SnapshotStepModel::CheckFault("neutron.snapshot.before_commit"@),
                    Some(OutcomeModel::Failed(error)) => uncommitted_snapshot_step(
                        h.recovered,
                        fault_refusal(error),
                    ),
                    Some(OutcomeModel::Done) => match h.commit {
                        None => SnapshotStepModel::Commit {
                            state: wal_of_runtime(outcome.next_runtime),
                        },
                        Some(OutcomeModel::Failed(error)) => uncommitted_snapshot_step(
                            h.recovered,
                            refusal(
                                ReplyStatus::InternalServerError,
                                "wal_commit_failed"@,
                                error,
                            ),
                        ),
                        Some(OutcomeModel::Done) => SnapshotStepModel::Finish {
                            runtime: outcome.next_runtime,
                            reply: Ok(applied_response(snapshot, outcome)),
                        },
                    },
                },
            },
        },
    }
}

fn next_uncommitted(recovered: &Option<NeutronRuntimeState>, error: SnapshotApplyError) -> (r:
    SnapshotStep)
    ensures
        r.deep_view() == uncommitted_snapshot_step(recovered.deep_view(), error.deep_view()),
{
    match recovered {
        None => SnapshotStep::Recover,
        Some(runtime) => SnapshotStep::Finish { runtime: runtime.duplicate(), reply: Err(error) },
    }
}

/// Tells what carrying a snapshot through has to do next. The answer does not list the active
/// interfaces yet.
pub fn apply_neutron_snapshot_for_scope(
    snapshot: &NeutronSnapshotRequest,
    intent: &PendingNeutronIntent,
    runtime_before_apply: &NeutronRuntimeState,
    history: &SnapshotHistory,
) -> (r: SnapshotStep)
    ensures
        r.deep_view() == snapshot_step(
            snapshot.deep_view(),
            intent.deep_view(),
            runtime_before_apply.deep_view(),
            history.deep_view(),
        ),
{
    let fault = match &history.intent_fault {
        None => {
            return SnapshotStep::CheckFault("neutron.snapshot.after_intent");
        },
        Some(fault) => fault,
    };
    match handle_snapshot_after_intent_fault(
        intent,
        runtime_before_apply,
        fault,
        &history.blocked_commit,
    ) {
        AfterIntentStep::Commit { state } => {
            return SnapshotStep::CommitBlocked { state };
        },
        AfterIntentStep::Fail { runtime, error } => {
            return SnapshotStep::Finish { runtime, reply: Err(error) };
        },
        AfterIntentStep::Proceed => {},
    }
    let outcome = match &history.applied {
        None => {
            return SnapshotStep::Apply;
        },
        Some(outcome) => outcome,
    };
    match &history.commit_fault {
        None => {
            return SnapshotStep::CheckFault("neutron.snapshot.before_commit");
        },
        Some(HostOutcome::Failed(error)) => {
            return next_uncommitted(
                &history.recovered,
                internal_error("fault_injection", error.as_str()),
            );
        },
        Some(HostOutcome::Done) => {},
    }
    match &history.commit {
        None => SnapshotStep::Commit { state: outcome.next_runtime.to_wal_state() },
        Some(HostOutcome::Failed(error)) => next_uncommitted(
            &history.recovered,
            internal_error("wal_commit_failed", error.as_str()),
        ),
        Some(HostOutcome::Done) => {
            let active: Vec<String> = Vec::new();
            assert(active.deep_view() =~= Seq::<Seq<char>>::empty());
            let response = neutron_snapshot_response(
                snapshot.generation,
                snapshot.desired_hash.duplicate(),
                snapshot.generation,
                if outcome.has_error {
                    outcome.previous_applied_generation
                } else {
                    snapshot.generation
                },
                if outcome.has_error {
                    "partial"
                } else {
                    "ok"
                },
                outcome.results.duplicate(),
                active,
            );
            SnapshotStep::Finish { runtime: outcome.next_runtime.duplicate(), reply: Ok(response) }
        },
    }
}

/// The runtime after a snapshot failed in the background: what a recovery left is kept.
pub open spec fn background_failed(
    runtime: NeutronRuntimeStateModel,
    generation: u64,
    desired_hash: Option<Seq<char>>,
    code: Seq<char>,
) -> NeutronRuntimeStateModel {
    let state = runtime.authority_state;
    if runtime.pending_generation == Some(generation) && runtime.desired_hash == desired_hash && !(
    state == "blocked_recovery_required"@ || state == "wal_recovery_commit_failed"@ || state
        == "pending_recovery_commit_failed"@) {
        NeutronRuntimeStateModel {
            authority_state: "degraded"@,
            wal_status: "background_apply_failed:"@ + code,
            ..runtime
        }
    } else {
        runtime
    }
}

/// Notes that a snapshot failed in the background.
pub fn mark_snapshot_background_error(
    runtime: &mut NeutronRuntimeState,
    generation: u64,
    desired_hash: &Option<String>,
    code: &str,
)
    ensures
        final(runtime).deep_view() == background_failed(
            old(runtime).deep_view(),
            generation,
            desired_hash.deep_view(),
            code@,
        ),
{
    let same = match runtime.pending_generation {
        Some(pending) => pending == generation,
        None => false,
    };
    if !same || !hashes_match(&runtime.desired_hash, desired_hash) {
        return ;
    }
    let kept = text_eq(runtime.authority_state.as_str(), "blocked_recovery_required") || text_eq(
        runtime.authority_state.as_str(),
        "wal_recovery_commit_failed",
    ) || text_eq(runtime.authority_state.as_str(), "pending_recovery_commit_failed");
    if kept {
        return ;
    }
    let mut log = "background_apply_failed:".to_owned();
    log.append(code);
    runtime.authority_state = "degraded".to_owned();
    runtime.wal_status = log;
}

/// Success is answered, and what applying came to is published, only once it is logged.
pub proof fn snapshots_succeed_only_once_logged(
    snapshot: NeutronSnapshotRequestModel,
    intent: PendingNeutronIntentModel,
    before: NeutronRuntimeStateModel,
    h: SnapshotHistoryModel,
)
    requires
        snapshot_step(snapshot, intent, before, h) is Finish,
        snapshot_step(snapshot, intent, before, h)->reply is Ok,
    ensures
        h.commit == Some(OutcomeModel::Done),
        h.applied is Some,
        snapshot_step(snapshot, intent, before, h)->Finish_runtime == h.applied->0.next_runtime,
{
}

/// The host is touched only once the intent is logged without a fault, and the ports of the intent
/// are cleaned up where what was applied could not be logged.
pub proof fn uncommitted_snapshots_are_recovered(
    snapshot: NeutronSnapshotRequestModel,
    intent: PendingNeutronIntentModel,
    before: NeutronRuntimeStateModel,
    h: SnapshotHistoryModel,
)
    ensures
        snapshot_step(snapshot, intent, before, h) is Apply ==> h.intent_fault == Some(
            OutcomeModel::Done,
        ),
        snapshot_step(snapshot, intent, before, h) is Finish && h.intent_fault == Some(
            OutcomeModel::Done,
        ) && snapshot_step(snapshot, intent, before, h)->reply is Err ==> h.recovered == Some(
            snapshot_step(snapshot, intent, before, h)->Finish_runtime,
        ),
{
}

proof fn lemma_recovered_ports_blocked(
    intent: PendingNeutronIntentModel,
    ports: Seq<crate::model::ManagedNeutronPortModel>,
    recoveries: Seq<RecoveryModel>,
    n: int,
    k: Seq<char>,
)
    requires
        0 <= n <= ports.len(),
        statuses_after_recovery(
            intent,
            Map::empty(),
            ports,
            recoveries.map_values(|recovery: RecoveryModel| uncommitted_recovery(recovery)),
            n,
        ).dom().contains(k),
        n <= recoveries.len(),
    ensures
        statuses_after_recovery(
            intent,
            Map::empty(),
            ports,
            recoveries.map_values(|recovery: RecoveryModel| uncommitted_recovery(recovery)),
            n,
        )[k].status == "blocked"@,
    decreases n,
{
    let blocked = recoveries.map_values(|recovery: RecoveryModel| uncommitted_recovery(recovery));
    if n > 0 {
        if k != ports[n - 1].port_id {
            lemma_recovered_ports_blocked(intent, ports, recoveries, n - 1, k);
        } else {
            assert(blocked[n - 1] == uncommitted_recovery(recoveries[n - 1]));
        }
    }
}

/// A snapshot that could not be committed leaves what was applied before as it was, with every
/// port that it touched blocked.
pub proof fn uncommitted_snapshots_keep_what_was_applied(
    intent: PendingNeutronIntentModel,
    previous: NeutronRuntimeStateModel,
    recoveries: Seq<RecoveryModel>,
    k: Seq<char>,
)
    requires
        ports_of_intent(intent, previous.ports).len() <= recoveries.len(),
    ensures
        ({
            let next = uncommitted_runtime(intent, previous, recoveries);
            &&& next.ports == previous.ports
            &&& next.applied_generation == previous.applied_generation
            &&& next.applied_desired_hash == previous.applied_desired_hash
            &&& next.pending_generation == Some(intent.generation)
            &&& next.authority_state == "blocked_recovery_required"@
            &&& next.port_statuses.dom().contains(k) ==> next.port_statuses[k].status
                == "blocked"@ || next.port_statuses[k] == previous.port_statuses[k]
        }),
{
    let ports = ports_of_intent(intent, previous.ports);
    let statuses = statuses_after_recovery(
        intent,
        Map::empty(),
        ports,
        recoveries.map_values(|recovery: RecoveryModel| uncommitted_recovery(recovery)),
        ports.len() as int,
    );
    if statuses.dom().contains(k) {
        lemma_recovered_ports_blocked(intent, ports, recoveries, ports.len() as int, k);
    }
}

} // verus!
