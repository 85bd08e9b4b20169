use neutron_agent::acceptance::{
    accept_neutron_snapshot_submit, AcceptanceEvent, AcceptanceStep, Discovery, SnapshotAcceptance,
};
use neutron_agent::admission::{validate_durable_partial_retry_barrier, PreparedSnapshot};
use neutron_agent::apply::{ApplyEvent, ApplyStep, SnapshotApply};
use neutron_agent::committed::committed_interfaces;
use neutron_agent::host::HostOutcome;
use neutron_agent::intent::{recover_incomplete_wal_intent, IntentRecoveryStep};
use neutron_agent::inventory::LocalInterfaceInventory;
use neutron_agent::model::{
    ManagedNeutronPort, NeutronPortApplyResult, NeutronPortSnapshot, NeutronPortStatus,
    NeutronRuntimeState, NeutronSnapshotRequest, NeutronSnapshotResponse, NeutronWalReplay,
    NeutronWalState, PendingNeutronIntent,
};
use neutron_agent::ordered::OrderedMap;
use neutron_agent::payload::EncodedPayload;
use neutron_agent::plan::SnapshotPlan;
use neutron_agent::recovery::{
    recover_pending_preflight, recover_pending_snapshot, NeutronRecoverPendingRequest,
    NeutronRecoverPendingResponse, PendingRecoveryStep,
};
use neutron_agent::scope::{ApplyScope, ReplyStatus, SnapshotApplyError};
use neutron_agent::status::{domain_status_with_action, port_runtime_status};
use neutron_agent::status_response::build_neutron_status_response;
use neutron_agent::status_v1::{
    NeutronStatusOverallReadiness, NeutronStatusRequiredAction, NeutronStatusTransactionState,
};
use neutron_agent::submit::{
    apply_neutron_snapshot_for_scope, recover_failed_snapshot_transaction, SnapshotHistory,
    SnapshotStep,
};
use neutron_agent::transaction::{
    affected_ports_for_intent, build_snapshot_apply_transaction,
    build_snapshot_transaction_from_plan,
};

const CAUSE: &str = "inventory_unavailable";

enum Entry {
    Commit(NeutronWalState),
    Intent(PendingNeutronIntent),
    Corrupt,
}

/// A log in memory.
struct Log {
    entries: Vec<Entry>,
    blocked: bool,
}

impl Log {
    fn new() -> Self {
        Self {
            entries: Vec::new(),
            blocked: false,
        }
    }

    fn append(&mut self, entry: Entry) -> Result<(), String> {
        if self.blocked {
            return Err("log is blocked".to_string());
        }
        self.entries.push(entry);
        Ok(())
    }

    fn replay(&self) -> NeutronWalReplay {
        let mut state = NeutronRuntimeState::default().to_wal_state();
        let mut pending_intent: Option<PendingNeutronIntent> = None;
        let mut failures = 0;
        for entry in &self.entries {
            match entry {
                Entry::Commit(next) => {
                    let protected = pending_intent
                        .as_ref()
                        .is_some_and(|intent| intent.recovery_cause.is_some());
                    if protected && next.recovery_cause.is_none() {
                        failures += 1;
                    } else {
                        state = next.clone();
                        pending_intent = None;
                    }
                }
                Entry::Intent(intent) => pending_intent = Some(intent.clone()),
                Entry::Corrupt => failures += 1,
            }
        }
        if let Some(intent) = &pending_intent {
            state.pending_generation = Some(intent.generation);
            state.desired_hash = intent.desired_hash.clone();
            state.authority_state = "wal_intent_without_commit".to_string();
        }
        let status = if pending_intent.is_some() {
            "intent_without_commit"
        } else if failures > 0 {
            "replayed_with_errors"
        } else if state.recovery_cause.is_some() {
            CAUSE
        } else {
            "replayed"
        };
        NeutronWalReplay {
            state,
            status: status.to_string(),
            failures,
            pending_intent,
        }
    }

    fn restart(&self) -> (NeutronRuntimeState, Option<PendingNeutronIntent>) {
        let replay = self.replay();
        let runtime =
            NeutronRuntimeState::from_wal_state(replay.state, replay.status, replay.failures);
        (runtime, replay.pending_intent)
    }

    fn last_commit(&self) -> &NeutronWalState {
        match self.entries.last() {
            Some(Entry::Commit(state)) => state,
            _ => panic!("the last entry is no commit"),
        }
    }
}

fn outcome(result: Result<(), String>) -> HostOutcome {
    match result {
        Ok(()) => HostOutcome::Done,
        Err(error) => HostOutcome::Failed(error),
    }
}

fn ready_status(port_id: &str, ifname: &str, generation: u64) -> NeutronPortStatus {
    port_runtime_status(
        port_id,
        ifname,
        generation,
        Some(format!("hash-{}", generation)),
        vec!["acl".to_string()],
        "ready",
        None,
        vec![domain_status_with_action(
            "acl",
            "ready",
            None,
            Some("enforce".to_string()),
        )],
    )
}

fn committed_runtime(generation: u64) -> NeutronRuntimeState {
    let mut ports = OrderedMap::new();
    ports.insert(
        "committed-port".to_string(),
        ManagedNeutronPort {
            port_id: "committed-port".to_string(),
            ifname: "tap-committed".to_string(),
            ifindex: None,
            managed_domains: vec!["acl".to_string()],
            domain_desired_hashes: OrderedMap::new(),
        },
    );
    let mut port_statuses = OrderedMap::new();
    port_statuses.insert(
        "committed-port".to_string(),
        ready_status("committed-port", "tap-committed", generation),
    );
    NeutronRuntimeState {
        accepted_generation: generation,
        applied_generation: generation,
        desired_hash: Some(format!("hash-{}", generation)),
        applied_desired_hash: Some(format!("hash-{}", generation)),
        authority_state: "ready".to_string(),
        ports,
        port_statuses,
        wal_status: "commit_written".to_string(),
        ..NeutronRuntimeState::default()
    }
}

fn port(port_id: &str, ifname: &str) -> NeutronPortSnapshot {
    NeutronPortSnapshot {
        port_id: port_id.to_string(),
        ifname: ifname.to_string(),
        ifindex: None,
        eligible: true,
        disposition: None,
        device_owner: None,
        vif_type: None,
        vnic_type: None,
        network_backend: None,
        ovs_iface_id: None,
        managed_domains: Vec::new(),
        acl: None,
        acl_payload: EncodedPayload::Json(b"null".to_vec()),
    }
}

fn committed_port() -> NeutronPortSnapshot {
    NeutronPortSnapshot {
        managed_domains: vec!["acl".to_string()],
        ..port("committed-port", "tap-committed")
    }
}

fn snapshot_of(generation: u64, ports: Vec<NeutronPortSnapshot>) -> NeutronSnapshotRequest {
    NeutronSnapshotRequest {
        schema_version: None,
        generation,
        desired_hash: Some(format!("hash-{}", generation)),
        host: None,
        ports,
    }
}

fn unavailable(details: &str) -> LocalInterfaceInventory {
    LocalInterfaceInventory::unavailable("br-int", details.to_string(), OrderedMap::new())
}

fn empty_inventory() -> LocalInterfaceInventory {
    LocalInterfaceInventory::from_ovs_rows(
        "br-int",
        &OrderedMap::new(),
        &Vec::new(),
        OrderedMap::new(),
    )
}

struct Admitted {
    prepared: PreparedSnapshot,
    before: NeutronRuntimeState,
    response: NeutronSnapshotResponse,
}

/// Takes up a snapshot that has to be applied or refused.
fn take_up(
    log: &mut Log,
    runtime: &mut NeutronRuntimeState,
    snapshot: &NeutronSnapshotRequest,
    inventory: &LocalInterfaceInventory,
) -> Result<Admitted, SnapshotApplyError> {
    let scope = ApplyScope::FullHost;
    let mut acceptance = SnapshotAcceptance::start(true, runtime.clone());
    for _ in 0..16 {
        let event = match accept_neutron_snapshot_submit(&scope, snapshot, &acceptance) {
            AcceptanceStep::Observe => AcceptanceEvent::Observed(runtime.clone()),
            AcceptanceStep::ReadLog => AcceptanceEvent::LogRead(log.replay()),
            AcceptanceStep::Discover => AcceptanceEvent::Discovered(Discovery {
                inventory: inventory.clone(),
                runtime: runtime.clone(),
            }),
            AcceptanceStep::LookAgain => panic!("the runtime did not change"),
            AcceptanceStep::VerifyProjection(_) => AcceptanceEvent::Verified(false),
            AcceptanceStep::LogIntent(intent) => {
                AcceptanceEvent::IntentLogged(outcome(log.append(Entry::Intent(intent))))
            }
            AcceptanceStep::Refuse(error) => return Err(error),
            AcceptanceStep::Answer(response) => panic!("answered at once: {:?}", response),
            AcceptanceStep::Apply {
                prepared,
                before,
                runtime: next,
                response,
            } => {
                *runtime = next;
                return Ok(Admitted {
                    prepared,
                    before,
                    response,
                });
            }
        };
        acceptance.observe(event);
    }
    panic!("admission does not end");
}

/// Applies an admitted snapshot whose work needs no host.
fn apply(
    log: &mut Log,
    runtime: &mut NeutronRuntimeState,
    snapshot: &NeutronSnapshotRequest,
    admitted: &Admitted,
) -> Result<NeutronSnapshotResponse, SnapshotApplyError> {
    let mut history = SnapshotHistory::default();
    for _ in 0..16 {
        match apply_neutron_snapshot_for_scope(
            snapshot,
            &admitted.prepared.intent,
            &admitted.before,
            &history,
        ) {
            SnapshotStep::CheckFault(_) => {
                if history.applied.is_none() {
                    history.intent_fault = Some(HostOutcome::Done);
                } else {
                    history.commit_fault = Some(HostOutcome::Done);
                }
            }
            SnapshotStep::CommitBlocked { .. } => panic!("no fault was asked for"),
            SnapshotStep::Apply => {
                let mut work = SnapshotApply::start(
                    snapshot.generation,
                    snapshot.desired_hash.clone(),
                    admitted.before.ports.clone(),
                    admitted.before.clone(),
                    &admitted.prepared.transaction,
                );
                loop {
                    match work.next() {
                        ApplyStep::Purge { .. } => {
                            work.observe(ApplyEvent::Purged(HostOutcome::Done));
                        }
                        ApplyStep::Detach { .. } => {
                            work.observe(ApplyEvent::Detached(HostOutcome::Done));
                        }
                        ApplyStep::Settle(_) => assert!(work.settle()),
                        ApplyStep::Finish => break,
                        step => panic!("unexpected step {:?}", step),
                    }
                }
                history.applied = Some(work.finish());
            }
            SnapshotStep::Commit { state } => {
                history.commit = Some(outcome(log.append(Entry::Commit(state))));
            }
            SnapshotStep::Recover => {
                history.recovered = Some(recover_failed(
                    log,
                    &admitted.prepared.intent,
                    &admitted.before,
                ));
            }
            SnapshotStep::Finish {
                runtime: next,
                reply,
            } => {
                *runtime = next;
                return reply;
            }
        }
    }
    panic!("applying does not end");
}

/// Recovers a snapshot that names no port.
fn recover_failed(
    log: &mut Log,
    intent: &PendingNeutronIntent,
    before: &NeutronRuntimeState,
) -> NeutronRuntimeState {
    let mut commit = None;
    loop {
        match recover_failed_snapshot_transaction(intent, before, &Vec::new(), &commit) {
            IntentRecoveryStep::Commit { state } => {
                commit = Some(outcome(log.append(Entry::Commit(state))));
            }
            IntentRecoveryStep::Publish(blocked) => return blocked,
            step => panic!("unexpected step {:?}", step),
        }
    }
}

/// Recovers an intent that names no port at start.
fn recover_at_start(
    log: &mut Log,
    runtime: &NeutronRuntimeState,
    intent: &PendingNeutronIntent,
) -> NeutronRuntimeState {
    let mut commit = None;
    loop {
        match recover_incomplete_wal_intent(intent, runtime, &Vec::new(), &commit) {
            IntentRecoveryStep::Commit { state } => {
                commit = Some(outcome(log.append(Entry::Commit(state))));
            }
            IntentRecoveryStep::Publish(next) => return next,
            step => panic!("unexpected step {:?}", step),
        }
    }
}

fn request(generation: u64) -> NeutronRecoverPendingRequest {
    NeutronRecoverPendingRequest {
        expected_pending_generation: generation,
        expected_desired_hash: Some(format!("hash-{}", generation)),
        mode: None,
    }
}

/// Takes a pending snapshot back.
fn recover_pending(
    log: &mut Log,
    runtime: &mut NeutronRuntimeState,
    generation: u64,
) -> Result<NeutronRecoverPendingResponse, SnapshotApplyError> {
    let request = request(generation);
    recover_pending_preflight(true, &request)?;
    let replay = log.replay();
    let mut verified = None;
    let mut commit = None;
    for _ in 0..8 {
        match recover_pending_snapshot(&request, &replay, runtime, &verified, &commit) {
            PendingRecoveryStep::CommitInventory { state, .. } => {
                verified = Some(match log.append(Entry::Commit(state)) {
                    Ok(()) => Ok(log.replay()),
                    Err(error) => Err(error),
                });
            }
            PendingRecoveryStep::CommitBehindBarrier { barrier, next } => {
                let found = log.replay();
                let held = found.failures == 0 && found.state == barrier;
                let result = if held {
                    log.append(Entry::Commit(next))
                } else {
                    Err("the barrier is not in the log".to_string())
                };
                commit = Some(outcome(result));
            }
            PendingRecoveryStep::Commit { next } => {
                commit = Some(outcome(log.append(Entry::Commit(next))));
            }
            PendingRecoveryStep::Finish {
                runtime: next,
                reply,
            } => {
                *runtime = next;
                return reply;
            }
        }
    }
    panic!("recovery does not end");
}

fn assert_recovered_replay(replay: &NeutronWalReplay, baseline: &NeutronRuntimeState) {
    assert_eq!(replay.status, "replayed");
    assert_eq!(replay.failures, 0);
    assert!(replay.pending_intent.is_none());
    assert_eq!(replay.state.accepted_generation, baseline.applied_generation);
    assert_eq!(replay.state.applied_generation, baseline.applied_generation);
    assert_eq!(replay.state.pending_generation, None);
    assert_eq!(replay.state.desired_hash, baseline.applied_desired_hash);
    assert_eq!(
        replay.state.applied_desired_hash,
        baseline.applied_desired_hash
    );
    assert_eq!(replay.state.recovery_cause, None);
    assert_eq!(replay.state.ports, baseline.ports);
    assert_eq!(replay.state.port_statuses, baseline.port_statuses);
    assert_eq!(
        replay.state.authority_state,
        "recovered_pending_full_resync_required"
    );
}

fn assert_two_stage_recovery_wal(
    log: &Log,
    expected_entries: usize,
    pending_generation: u64,
    applied_generation: u64,
) {
    assert_eq!(log.entries.len(), expected_entries);
    let Entry::Commit(barrier) = &log.entries[expected_entries - 2] else {
        panic!("the barrier is no commit");
    };
    assert_eq!(barrier.recovery_cause.as_deref(), Some(CAUSE));
    assert_eq!(barrier.accepted_generation, pending_generation);
    assert_eq!(barrier.applied_generation, applied_generation);
    assert_eq!(barrier.pending_generation, Some(pending_generation));
    assert_eq!(log.last_commit().recovery_cause, None);
}

fn assert_blocked(
    runtime: &NeutronRuntimeState,
    generation: u64,
    previous: &NeutronRuntimeState,
) {
    assert_eq!(runtime.accepted_generation, generation);
    assert_eq!(runtime.applied_generation, previous.applied_generation);
    assert_eq!(runtime.pending_generation, Some(generation));
    assert_eq!(
        runtime.desired_hash,
        Some(format!("hash-{}", generation))
    );
    assert_eq!(runtime.applied_desired_hash, previous.applied_desired_hash);
    assert_eq!(runtime.authority_state, "blocked_recovery_required");
    assert_eq!(runtime.wal_status, CAUSE);
    assert_eq!(runtime.recovery_cause.as_deref(), Some(CAUSE));
    assert_eq!(runtime.ports, previous.ports);
    assert_eq!(runtime.port_statuses, previous.port_statuses);
}

#[test]
fn neutron_snapshot_submit_wal_intent_failure_keeps_runtime_unaccepted() {
    let mut log = Log::new();
    log.blocked = true;
    let mut runtime = NeutronRuntimeState {
        authority_state: "idle".to_string(),
        ..NeutronRuntimeState::default()
    };
    let snapshot = snapshot_of(131, vec![port("target-port", "tap-target")]);
    let error = match take_up(&mut log, &mut runtime, &snapshot, &unavailable("no switch")) {
        Err(error) => error,
        Ok(_) => panic!("an intent that is not logged was taken up"),
    };
    assert_eq!(error.status, ReplyStatus::InternalServerError);
    assert_eq!(error.code, "wal_intent_failed");
    assert_eq!(error.details, "log is blocked");
    assert_eq!(runtime.accepted_generation, 0);
    assert_eq!(runtime.applied_generation, 0);
    assert_eq!(runtime.pending_generation, None);
    assert_eq!(runtime.authority_state, "idle");
}

#[test]
fn snapshots_are_logged_then_applied() {
    let mut log = Log::new();
    let mut runtime = committed_runtime(7);
    assert!(log.append(Entry::Commit(runtime.to_wal_state())).is_ok());
    let snapshot = snapshot_of(8, Vec::new());
    let admitted = take_up(&mut log, &mut runtime, &snapshot, &empty_inventory()).unwrap();
    assert_eq!(admitted.response.status, "pending");
    assert_eq!(admitted.response.accepted_generation, 7);
    assert_eq!(admitted.before, committed_runtime(7));
    assert_eq!(runtime.pending_generation, Some(8));
    assert_eq!(runtime.authority_state, "applying");
    assert_eq!(runtime.wal_status, "intent_written");
    assert_eq!(
        log.replay().pending_intent.as_ref(),
        Some(&admitted.prepared.intent)
    );

    let response = apply(&mut log, &mut runtime, &snapshot, &admitted).unwrap();
    assert_eq!(response.status, "ok");
    assert_eq!(response.applied_generation, 8);
    assert_eq!(runtime.applied_generation, 8);
    assert_eq!(runtime.pending_generation, None);
    assert!(runtime.ports.is_empty());
    assert_eq!(log.last_commit(), &runtime.to_wal_state());
    assert!(log.replay().pending_intent.is_none());
}

#[test]
fn neutron_snapshot_ovsdb_unavailable_wal_commit_and_recovery_preserve_last_applied() {
    let mut log = Log::new();
    let previous = committed_runtime(90);
    let mut runtime = previous.clone();
    assert!(log.append(Entry::Commit(previous.to_wal_state())).is_ok());
    let snapshot = snapshot_of(91, vec![committed_port()]);
    let admitted = take_up(
        &mut log,
        &mut runtime,
        &snapshot,
        &unavailable("connection refused"),
    )
    .unwrap();
    let response = apply(&mut log, &mut runtime, &snapshot, &admitted).unwrap();
    assert_eq!(response.status, "partial");

    let replay = log.replay();
    assert_eq!(replay.status, "inventory_unavailable");
    assert_eq!(replay.failures, 0);
    assert_eq!(replay.state.accepted_generation, 91);
    assert_eq!(replay.state.applied_generation, 90);
    assert_eq!(replay.state.pending_generation, Some(91));
    assert_eq!(replay.state.desired_hash.as_deref(), Some("hash-91"));
    assert_eq!(
        replay.state.applied_desired_hash,
        previous.applied_desired_hash
    );
    assert_eq!(replay.state.authority_state, "blocked_recovery_required");
    assert_eq!(replay.state.ports, previous.ports);
    assert_eq!(replay.state.port_statuses, previous.port_statuses);

    let (mut restarted, pending) = log.restart();
    assert!(pending.is_none());
    assert_eq!(restarted.wal_status, "inventory_unavailable");
    assert_eq!(committed_interfaces(&restarted), None);
    assert!(log.append(Entry::Commit(restarted.to_wal_state())).is_ok());
    assert_eq!(log.last_commit().recovery_cause.as_deref(), Some(CAUSE));
    let replay = log.replay();
    assert_eq!(replay.status, "inventory_unavailable");
    assert_eq!(replay.state.accepted_generation, 91);
    assert_eq!(replay.state.applied_generation, 90);
    assert_eq!(replay.state.pending_generation, Some(91));

    let recovered = recover_pending(&mut log, &mut restarted, 91).unwrap();
    assert_eq!(recovered.applied_generation, 90);
    assert_eq!(recovered.desired_hash.as_deref(), Some("hash-90"));
    assert_eq!(
        recovered.authority_state,
        "recovered_pending_full_resync_required"
    );
    assert_recovered_replay(&log.replay(), &previous);
}

#[test]
fn neutron_snapshot_inventory_unavailable_wal_round_trip_rehydrates_status() {
    let mut log = Log::new();
    let previous = committed_runtime(100);
    let snapshot = snapshot_of(101, Vec::new());
    let transaction = build_snapshot_apply_transaction(
        &previous.ports,
        &snapshot,
        &unavailable("transaction timed out"),
        ApplyScope::FullHost,
    )
    .unwrap();
    let work = SnapshotApply::start(
        snapshot.generation,
        snapshot.desired_hash.clone(),
        previous.ports.clone(),
        previous.clone(),
        &transaction,
    );
    assert_eq!(work.next(), ApplyStep::Finish);
    let next = work.finish().next_runtime;
    assert!(log.append(Entry::Commit(next.to_wal_state())).is_ok());
    assert_eq!(log.last_commit().recovery_cause.as_deref(), Some(CAUSE));

    let (restarted, _) = log.restart();
    assert_eq!(restarted.wal_status, "inventory_unavailable");
    assert_eq!(restarted.wal_replay_failures, 0);
    assert_eq!(restarted.applied_generation, 100);
    assert_eq!(restarted.pending_generation, Some(101));
    assert_eq!(restarted.ports, previous.ports);
    assert_eq!(restarted.port_statuses, previous.port_statuses);
}

#[test]
fn neutron_wal_inventory_unavailable_admission_writes_hashed_cause_intent() {
    let mut log = Log::new();
    let mut runtime = committed_runtime(140);
    let snapshot = snapshot_of(141, vec![committed_port()]);
    let admitted = take_up(&mut log, &mut runtime, &snapshot, &unavailable("no bridge")).unwrap();
    assert!(admitted.prepared.transaction.plan.inventory_error.is_some());
    assert!(admitted.prepared.intent.port_ids.is_empty());
    assert!(admitted.prepared.intent.affected_ports.is_empty());
    let Some(Entry::Intent(intent)) = log.entries.last() else {
        panic!("admission logs an intent");
    };
    assert_eq!(intent, &admitted.prepared.intent);
    assert_eq!(intent.recovery_cause.as_deref(), Some(CAUSE));
    assert_eq!(intent.generation, 141);
    assert_eq!(intent.desired_hash.as_deref(), Some("hash-141"));
}

fn inventory_intent(generation: u64, affected_domains: Vec<String>) -> PendingNeutronIntent {
    PendingNeutronIntent {
        kind: "snapshot".to_string(),
        generation,
        desired_hash: Some(format!("hash-{}", generation)),
        port_ids: Vec::new(),
        affected_domains,
        affected_ports: Vec::new(),
        recovery_cause: Some(CAUSE.to_string()),
    }
}

#[test]
fn neutron_wal_inventory_unavailable_restart_chain_preserves_intent_cause() {
    let mut log = Log::new();
    let previous = committed_runtime(150);
    assert!(log.append(Entry::Commit(previous.to_wal_state())).is_ok());
    assert!(log
        .append(Entry::Intent(inventory_intent(151, Vec::new())))
        .is_ok());

    let (restarted, pending) = log.restart();
    assert_eq!(restarted.wal_status, "intent_without_commit");
    assert_eq!(restarted.wal_replay_failures, 0);
    let intent = pending.unwrap();
    assert_eq!(intent.generation, 151);
    let recovered = recover_at_start(&mut log, &restarted, &intent);
    assert_eq!(log.entries.len(), 3);
    assert_blocked(&recovered, 151, &previous);
    assert_eq!(log.last_commit(), &recovered.to_wal_state());
    assert_eq!(committed_interfaces(&recovered), None);

    let replay = log.replay();
    assert_eq!(replay.failures, 0);
    assert_eq!(replay.status, CAUSE);
    assert_eq!(replay.state, recovered.to_wal_state());
}

#[test]
fn neutron_wal_rejected_cause_free_closer_startup_skips_datapath_reconcile() {
    let mut log = Log::new();
    let previous = committed_runtime(155);
    assert!(log.append(Entry::Commit(previous.to_wal_state())).is_ok());
    assert!(log
        .append(Entry::Intent(inventory_intent(
            156,
            vec!["acl".to_string()]
        )))
        .is_ok());
    let closer = NeutronRuntimeState {
        accepted_generation: 156,
        pending_generation: Some(156),
        desired_hash: Some("hash-156".to_string()),
        authority_state: "blocked_recovery_required".to_string(),
        wal_status: "legacy_cause_free_closer".to_string(),
        recovery_cause: None,
        ..previous.clone()
    };
    assert!(log.append(Entry::Commit(closer.to_wal_state())).is_ok());

    let (restarted, pending) = log.restart();
    let recovered = recover_at_start(&mut log, &restarted, &pending.unwrap());
    assert_eq!(log.entries.len(), 4);
    assert_eq!(committed_interfaces(&recovered), None);
    assert_blocked(&recovered, 156, &previous);
    assert_eq!(recovered.wal_replay_failures, 1);
}

#[test]
fn neutron_wal_inventory_unavailable_commit_failure_preserves_intent_cause() {
    let mut log = Log::new();
    let previous = committed_runtime(160);
    let mut runtime = previous.clone();
    assert!(log.append(Entry::Commit(previous.to_wal_state())).is_ok());
    let snapshot = snapshot_of(161, vec![committed_port()]);
    let admitted = take_up(&mut log, &mut runtime, &snapshot, &unavailable("no bridge")).unwrap();
    let intent = &admitted.prepared.intent;
    assert!(admitted.prepared.transaction.plan.inventory_error.is_some());
    assert!(intent.port_ids.is_empty());
    assert!(intent.affected_ports.is_empty());
    assert!(affected_ports_for_intent(intent, &previous.ports).is_empty());

    let blocked = recover_failed(&mut log, intent, &previous);
    assert_blocked(&blocked, 161, &previous);
    assert_eq!(log.last_commit().recovery_cause.as_deref(), Some(CAUSE));
    let replay = log.replay();
    assert_eq!(replay.failures, 0);
    assert_eq!(replay.status, CAUSE);
    assert_eq!(replay.state, blocked.to_wal_state());
}

#[test]
fn neutron_wal_inventory_unavailable_double_append_failure_recovers_baseline() {
    let mut log = Log::new();
    let previous = committed_runtime(200);
    let mut runtime = previous.clone();
    assert!(log.append(Entry::Commit(previous.to_wal_state())).is_ok());
    let snapshot = snapshot_of(201, vec![committed_port()]);
    let admitted = take_up(&mut log, &mut runtime, &snapshot, &unavailable("no bridge")).unwrap();
    assert_eq!(
        admitted.prepared.intent.recovery_cause.as_deref(),
        Some(CAUSE)
    );
    log.blocked = true;
    let error = apply(&mut log, &mut runtime, &snapshot, &admitted).unwrap_err();
    log.blocked = false;
    assert_eq!(error.code, "wal_commit_failed");
    assert_eq!(log.entries.len(), 2);
    assert_blocked(&runtime, 201, &previous);
    let replay = log.replay();
    assert_eq!(replay.status, "intent_without_commit");
    assert_eq!(replay.failures, 0);
    assert_eq!(
        replay.pending_intent.unwrap().recovery_cause.as_deref(),
        Some(CAUSE)
    );
    assert_eq!(replay.state.recovery_cause, None);

    let recovered = recover_pending(&mut log, &mut runtime, 201).unwrap();
    assert_eq!(recovered.status, "recovered");
    assert_eq!(recovered.applied_generation, previous.applied_generation);
    assert_eq!(recovered.desired_hash, previous.applied_desired_hash);
    assert_eq!(
        recovered.authority_state,
        "recovered_pending_full_resync_required"
    );
    assert_recovered_replay(&log.replay(), &previous);
    assert_two_stage_recovery_wal(&log, 4, 201, 200);

    let (restarted, pending) = log.restart();
    assert!(pending.is_none());
    assert_eq!(restarted.accepted_generation, previous.applied_generation);
    assert_eq!(restarted.applied_generation, previous.applied_generation);
    assert_eq!(restarted.pending_generation, None);
    assert_eq!(restarted.desired_hash, previous.applied_desired_hash);
    assert_eq!(restarted.applied_desired_hash, previous.applied_desired_hash);
    assert_eq!(restarted.recovery_cause, None);
    assert_eq!(
        restarted.authority_state,
        "recovered_pending_full_resync_required"
    );
    assert_eq!(restarted.wal_status, "replayed");
    assert_eq!(restarted.wal_replay_failures, 0);
    assert_eq!(restarted.ports, previous.ports);
    assert_eq!(restarted.port_statuses, previous.port_statuses);
}

#[test]
fn neutron_wal_inventory_unavailable_double_append_failure_recovers_generation_zero() {
    let mut log = Log::new();
    let baseline = NeutronRuntimeState::default();
    let mut runtime = baseline.clone();
    let snapshot = snapshot_of(1, Vec::new());
    let admitted = take_up(&mut log, &mut runtime, &snapshot, &unavailable("no bridge")).unwrap();
    assert!(admitted.prepared.transaction.plan.inventory_error.is_some());
    assert_eq!(
        admitted.prepared.intent.recovery_cause.as_deref(),
        Some(CAUSE)
    );
    assert!(admitted.prepared.intent.port_ids.is_empty());
    assert!(admitted.prepared.intent.affected_ports.is_empty());
    log.blocked = true;
    let error = apply(&mut log, &mut runtime, &snapshot, &admitted).unwrap_err();
    log.blocked = false;
    assert_eq!(error.code, "wal_commit_failed");
    assert_eq!(log.entries.len(), 1);
    assert_blocked(&runtime, 1, &baseline);
    assert!(runtime.ports.is_empty());
    assert!(runtime.port_statuses.is_empty());
    let replay = log.replay();
    assert_eq!(replay.status, "intent_without_commit");
    assert_eq!(replay.failures, 0);
    assert_eq!(
        replay.pending_intent.unwrap().recovery_cause.as_deref(),
        Some(CAUSE)
    );
    assert_eq!(replay.state.recovery_cause, None);

    let recovered = recover_pending(&mut log, &mut runtime, 1).unwrap();
    assert_eq!(recovered.status, "recovered");
    assert_eq!(recovered.applied_generation, 0);
    assert_eq!(recovered.desired_hash, None);
    assert_eq!(recovered.applied_desired_hash, None);
    assert_eq!(
        recovered.authority_state,
        "recovered_pending_full_resync_required"
    );
    assert_recovered_replay(&log.replay(), &baseline);
    assert_two_stage_recovery_wal(&log, 3, 1, 0);

    let (restarted, pending) = log.restart();
    assert!(pending.is_none());
    assert_eq!(restarted.accepted_generation, 0);
    assert_eq!(restarted.applied_generation, 0);
    assert_eq!(restarted.pending_generation, None);
    assert_eq!(restarted.desired_hash, None);
    assert_eq!(restarted.applied_desired_hash, None);
    assert_eq!(restarted.recovery_cause, None);
    assert_eq!(
        restarted.authority_state,
        "recovered_pending_full_resync_required"
    );
    assert_eq!(restarted.wal_status, "replayed");
    assert_eq!(restarted.wal_replay_failures, 0);
    assert!(restarted.ports.is_empty());
    assert!(restarted.port_statuses.is_empty());
}

fn blocked_for(previous: &NeutronRuntimeState, intent: &PendingNeutronIntent) -> NeutronRuntimeState {
    NeutronRuntimeState {
        accepted_generation: intent.generation,
        pending_generation: Some(intent.generation),
        desired_hash: intent.desired_hash.clone(),
        authority_state: "blocked_recovery_required".to_string(),
        wal_status: CAUSE.to_string(),
        recovery_cause: Some(CAUSE.to_string()),
        ..previous.clone()
    }
}

#[test]
fn neutron_wal_inventory_recovery_phase_two_failure_preserves_retry_state() {
    let mut log = Log::new();
    let previous = committed_runtime(210);
    let intent = inventory_intent(211, vec!["acl".to_string()]);
    let blocked = blocked_for(&previous, &intent);
    assert!(log.append(Entry::Commit(previous.to_wal_state())).is_ok());
    assert!(log.append(Entry::Intent(intent)).is_ok());
    assert!(log.append(Entry::Commit(blocked.to_wal_state())).is_ok());
    let mut runtime = blocked.clone();

    log.blocked = true;
    let error = recover_pending(&mut log, &mut runtime, 211).unwrap_err();
    log.blocked = false;
    assert_eq!(error.code, "pending_recovery_commit_failed");
    assert_eq!(runtime, blocked);
    let replay = log.replay();
    assert_eq!(replay.status, CAUSE);
    assert_eq!(replay.failures, 0);
    assert!(replay.pending_intent.is_none());
    assert_eq!(replay.state, blocked.to_wal_state());

    let recovered = recover_pending(&mut log, &mut runtime, 211).unwrap();
    assert_eq!(recovered.status, "recovered");
    assert_recovered_replay(&log.replay(), &previous);
    assert_two_stage_recovery_wal(&log, 4, 211, 210);
}

#[test]
fn neutron_wal_inventory_recovery_rejects_corrupt_nonzero_barrier_replay() {
    let mut log = Log::new();
    let previous = committed_runtime(220);
    let intent = inventory_intent(221, vec!["acl".to_string()]);
    let blocked = blocked_for(&previous, &intent);
    assert!(log.append(Entry::Commit(previous.to_wal_state())).is_ok());
    assert!(log.append(Entry::Intent(intent)).is_ok());
    assert!(log.append(Entry::Commit(blocked.to_wal_state())).is_ok());
    assert!(log.append(Entry::Corrupt).is_ok());
    let mut runtime = blocked.clone();
    let replay = log.replay();
    assert_eq!(replay.status, "replayed_with_errors");
    assert_eq!(replay.failures, 1);
    assert_eq!(replay.state.recovery_cause.as_deref(), Some(CAUSE));

    let error = recover_pending(&mut log, &mut runtime, 221).unwrap_err();
    assert_eq!(error.status, ReplyStatus::InternalServerError);
    assert_eq!(error.code, "pending_recovery_commit_failed");
    assert_eq!(log.entries.len(), 4);
    assert_eq!(runtime, blocked);

    let (mut restarted, pending) = log.restart();
    assert!(pending.is_none());
    assert_eq!(restarted.to_wal_state(), blocked.to_wal_state());
    assert_eq!(restarted.wal_status, "replayed_with_errors");
    assert_eq!(restarted.wal_replay_failures, 1);
    let before = restarted.clone();
    let error = recover_pending(&mut log, &mut restarted, 221).unwrap_err();
    assert_eq!(error.status, ReplyStatus::InternalServerError);
    assert_eq!(error.code, "pending_recovery_commit_failed");
    assert_eq!(log.entries.len(), 4);
    assert_eq!(restarted, before);
}

#[test]
fn changed_runtimes_are_looked_at_again() {
    let scope = ApplyScope::FullHost;
    let snapshot = snapshot_of(12, Vec::new());
    let mut acceptance = SnapshotAcceptance::start(true, committed_runtime(8));
    assert!(!acceptance.look_again(&scope, &snapshot));
    for attempt in 1..=3 {
        assert_eq!(acceptance.attempt, attempt);
        acceptance.observe(AcceptanceEvent::Observed(committed_runtime(8)));
        assert!(matches!(
            accept_neutron_snapshot_submit(&scope, &snapshot, &acceptance),
            AcceptanceStep::Discover
        ));
        acceptance.observe(AcceptanceEvent::Discovered(Discovery {
            inventory: empty_inventory(),
            runtime: committed_runtime(9),
        }));
        let again = acceptance.look_again(&scope, &snapshot);
        assert_eq!(again, attempt < 3);
    }
    let AcceptanceStep::Refuse(error) =
        accept_neutron_snapshot_submit(&scope, &snapshot, &acceptance)
    else {
        panic!("the third look is the last");
    };
    assert_eq!(error.status, ReplyStatus::Conflict);
    assert_eq!(error.code, "snapshot_admission_changed");
    assert_eq!(
        error.details,
        "snapshot admission changed during OVS discovery after 3 attempts"
    );
}

#[test]
fn snapshots_are_refused_until_the_restore_is_done() {
    let acceptance = SnapshotAcceptance::start(false, committed_runtime(8));
    let AcceptanceStep::Refuse(error) = accept_neutron_snapshot_submit(
        &ApplyScope::FullHost,
        &snapshot_of(9, Vec::new()),
        &acceptance,
    ) else {
        panic!("the restore is not done");
    };
    assert_eq!(error.status, ReplyStatus::ServiceUnavailable);
    assert_eq!(error.code, "neutron_runtime_restore_in_progress");
}

fn retryable_partial_runtime(generation: u64, desired_hash: &str) -> NeutronRuntimeState {
    NeutronRuntimeState {
        accepted_generation: generation,
        applied_generation: 0,
        pending_generation: Some(generation),
        desired_hash: Some(desired_hash.to_string()),
        applied_desired_hash: None,
        authority_state: "partial".to_string(),
        wal_status: "commit_written".to_string(),
        ..NeutronRuntimeState::default()
    }
}

#[test]
fn snapshot_generation_retry_repeated_failure_stays_partial_at_same_generation() {
    let mut log = Log::new();
    let mut runtime = retryable_partial_runtime(1, "hash-1");
    assert!(log.append(Entry::Commit(runtime.to_wal_state())).is_ok());
    let snapshot = snapshot_of(1, Vec::new());
    let mut admitted = take_up(&mut log, &mut runtime, &snapshot, &empty_inventory()).unwrap();
    assert_eq!(admitted.response.generation, 1);
    assert_eq!(admitted.response.desired_hash.as_deref(), Some("hash-1"));
    assert_eq!(log.replay().pending_intent.unwrap().generation, 1);
    admitted.prepared.transaction = build_snapshot_transaction_from_plan(
        ApplyScope::FullHost,
        &snapshot,
        SnapshotPlan {
            attach: Vec::new(),
            update: Vec::new(),
            detach: Vec::new(),
            ignored: vec![NeutronPortApplyResult {
                port_id: "transient-port".to_string(),
                ifname: "tap-transient".to_string(),
                action: "update".to_string(),
                status: "error".to_string(),
                reason: Some("transient_failure".to_string()),
            }],
            inventory_error: None,
        },
    )
    .unwrap();
    let response = apply(&mut log, &mut runtime, &snapshot, &admitted).unwrap();
    assert_eq!(response.status, "partial");
    assert_eq!(response.generation, 1);
    assert_eq!(runtime.accepted_generation, 1);
    assert_eq!(runtime.applied_generation, 0);
    assert_eq!(runtime.pending_generation, Some(1));
    assert_eq!(runtime.authority_state, "partial");
}

#[test]
fn snapshot_generation_retry_status_v2_marks_first_partial_retryable() {
    let mut log = Log::new();
    let partial = retryable_partial_runtime(1, "hash-1");
    assert!(log.append(Entry::Commit(partial.to_wal_state())).is_ok());
    let retryable = validate_durable_partial_retry_barrier(&partial, &log.replay()).is_ok();
    let response = build_neutron_status_response(&partial, retryable, Vec::new(), None);
    assert_eq!(response.status_schema_version, 3);
    assert_eq!(response.status_contract_hash, "v0.9-neutron-status-3");
    assert_eq!(
        response.transaction_state,
        NeutronStatusTransactionState::Blocked
    );
    assert_eq!(
        response.overall_readiness,
        NeutronStatusOverallReadiness::Blocked
    );
    assert_eq!(
        response.required_action,
        NeutronStatusRequiredAction::RetrySnapshot
    );
    assert_eq!(response.applied_generation, 0);
    assert_eq!(response.pending_generation, Some(1));
    assert!(response.port_statuses.iter().all(|row| row.generation == 0));
}

#[test]
fn neutron_snapshot_status_v1_real_admission_polls_with_baseline_accepted_generation() {
    let mut log = Log::new();
    let baseline = committed_runtime(42);
    let mut runtime = baseline.clone();
    assert!(log.append(Entry::Commit(baseline.to_wal_state())).is_ok());
    let snapshot = NeutronSnapshotRequest {
        schema_version: None,
        generation: 45,
        desired_hash: Some("hash-pending-45".to_string()),
        host: None,
        ports: vec![port("committed-port", "tap-committed")],
    };

    let admitted = take_up(&mut log, &mut runtime, &snapshot, &unavailable("no switch")).unwrap();
    assert_eq!(admitted.response.status, "pending");
    assert_eq!(admitted.response.accepted_generation, 42);
    assert_eq!(admitted.response.applied_generation, 42);
    assert_eq!(admitted.prepared.intent.generation, 45);
    assert_eq!(
        admitted.prepared.intent.desired_hash.as_deref(),
        Some("hash-pending-45")
    );
    assert_eq!(admitted.before.accepted_generation, 42);
    assert_eq!(admitted.before.applied_generation, 42);

    assert_eq!(runtime.accepted_generation, 42);
    assert_eq!(runtime.applied_generation, 42);
    assert_eq!(runtime.pending_generation, Some(45));
    assert_eq!(runtime.desired_hash.as_deref(), Some("hash-pending-45"));
    assert_eq!(runtime.applied_desired_hash, baseline.applied_desired_hash);
    assert_eq!(runtime.authority_state, "applying");
    assert_eq!(runtime.wal_status, "intent_written");

    let retryable = validate_durable_partial_retry_barrier(&runtime, &log.replay()).is_ok();
    let status = build_neutron_status_response(&runtime, retryable, Vec::new(), None);
    assert_eq!(status.accepted_generation, 42);
    assert_eq!(status.applied_generation, 42);
    assert_eq!(status.pending_generation, Some(45));
    assert_eq!(status.desired_hash.as_deref(), Some("hash-pending-45"));
    assert_eq!(
        status.transaction_state,
        NeutronStatusTransactionState::Pending
    );
    assert_eq!(
        status.overall_readiness,
        NeutronStatusOverallReadiness::Unknown
    );
    assert_eq!(status.required_action, NeutronStatusRequiredAction::Poll);
    assert_eq!(status.recovery_cause, None);
    assert_eq!(status.last_classified_generation, 42);
}

#[test]
fn neutron_snapshot_status_v1_real_wal_recovery_keeps_baseline_accepted_generation() {
    let mut log = Log::new();
    let baseline = committed_runtime(52);
    assert!(log.append(Entry::Commit(baseline.to_wal_state())).is_ok());
    assert!(log
        .append(Entry::Intent(PendingNeutronIntent {
            kind: "snapshot".to_string(),
            generation: 55,
            desired_hash: Some("hash-recovery-55".to_string()),
            ..PendingNeutronIntent::default()
        }))
        .is_ok());

    let (restarted, pending) = log.restart();
    let intent = pending.unwrap();
    assert_eq!(intent.kind, "snapshot");
    assert_eq!(intent.generation, 55);
    assert_eq!(intent.recovery_cause, None);
    assert_eq!(restarted.accepted_generation, 52);
    assert_eq!(restarted.applied_generation, 52);
    assert_eq!(restarted.pending_generation, Some(55));
    assert_eq!(restarted.authority_state, "wal_intent_without_commit");

    let runtime = recover_at_start(&mut log, &restarted, &intent);
    assert_eq!(runtime.accepted_generation, 52);
    assert_eq!(runtime.applied_generation, 52);
    assert_eq!(runtime.pending_generation, Some(55));
    assert_eq!(runtime.desired_hash.as_deref(), Some("hash-recovery-55"));
    assert_eq!(runtime.applied_desired_hash, baseline.applied_desired_hash);
    assert_eq!(runtime.authority_state, "blocked_recovery_required");
    assert_eq!(runtime.wal_status, "intent_recovery_blocked");
    assert_eq!(runtime.recovery_cause, None);
    assert_eq!(log.last_commit(), &runtime.to_wal_state());

    let retryable = validate_durable_partial_retry_barrier(&runtime, &log.replay()).is_ok();
    let status = build_neutron_status_response(&runtime, retryable, Vec::new(), None);
    assert_eq!(status.accepted_generation, 52);
    assert_eq!(status.applied_generation, 52);
    assert_eq!(status.pending_generation, Some(55));
    assert_eq!(status.desired_hash.as_deref(), Some("hash-recovery-55"));
    assert_eq!(
        status.transaction_state,
        NeutronStatusTransactionState::Blocked
    );
    assert_eq!(
        status.overall_readiness,
        NeutronStatusOverallReadiness::Blocked
    );
    assert_eq!(
        status.required_action,
        NeutronStatusRequiredAction::RecoverPending
    );
    assert_eq!(status.recovery_cause, None);
    assert_eq!(status.last_classified_generation, 52);
}
