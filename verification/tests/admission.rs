use neutron_agent::admission::{
    accept_snapshot, admission_preflight, decide_admission, observe_admission,
    revalidate_admission, AdmissionDecision, AdmissionStep, PreparedSnapshot,
    SNAPSHOT_ADMISSION_REVALIDATION_ATTEMPTS,
};
use neutron_agent::apply::SnapshotApply;
use neutron_agent::domains::managed_port_from_snapshot;
use neutron_agent::host::HostOutcome;
use neutron_agent::intent::IntentRecoveryStep;
use neutron_agent::inventory::{LocalInterfaceInventory, LocalOvsInterface};
use neutron_agent::model::{
    ManagedNeutronPort, NeutronAclSnapshot, NeutronPortApplyResult, NeutronPortSnapshot,
    NeutronPortStatus, NeutronRuntimeState, NeutronSnapshotRequest, NeutronWalReplay,
    PendingNeutronIntent,
};
use neutron_agent::ordered::OrderedMap;
use neutron_agent::payload::EncodedPayload;
use neutron_agent::plan::{build_snapshot_plan, SnapshotPlan};
use neutron_agent::recovery::{
    recover_pending_snapshot, NeutronRecoverPendingRequest, PendingRecoveryStep,
};
use neutron_agent::scope::{ApplyScope, ReplyStatus};
use neutron_agent::status::{domain_status_with_action, port_runtime_status};
use neutron_agent::submit::{
    apply_neutron_snapshot_for_scope, handle_snapshot_after_intent_fault,
    mark_snapshot_background_error, recover_failed_snapshot_transaction, AfterIntentStep,
    SnapshotHistory, SnapshotStep,
};
use neutron_agent::transaction::{
    affected_ports_for_intent, build_snapshot_apply_transaction,
    build_snapshot_transaction_from_plan,
};

fn encoded(acl: &Option<NeutronAclSnapshot>) -> EncodedPayload {
    EncodedPayload::Json(format!("{:?}", acl).into_bytes())
}

fn managed(port_id: &str, ifname: &str) -> ManagedNeutronPort {
    ManagedNeutronPort {
        port_id: port_id.to_string(),
        ifname: ifname.to_string(),
        ifindex: None,
        managed_domains: Vec::new(),
        domain_desired_hashes: OrderedMap::new(),
    }
}

fn port(port_id: &str, ifname: &str, eligible: bool) -> NeutronPortSnapshot {
    NeutronPortSnapshot {
        port_id: port_id.to_string(),
        ifname: ifname.to_string(),
        ifindex: None,
        eligible,
        disposition: None,
        device_owner: None,
        vif_type: None,
        vnic_type: None,
        network_backend: None,
        ovs_iface_id: None,
        managed_domains: Vec::new(),
        acl: None,
        acl_payload: encoded(&None),
    }
}

fn ready_status(port_id: &str, ifname: &str, generation: u64) -> NeutronPortStatus {
    port_runtime_status(
        port_id,
        ifname,
        generation,
        Some(format!("hash-{}", generation)),
        vec!["acl".to_string()],
        "ready",
        None,
        vec![domain_status_with_action(
            "acl",
            "ready",
            None,
            Some("enforce".to_string()),
        )],
    )
}

fn iface(
    name: &str,
    port_id: &str,
    ifindex: Option<u32>,
    bridge: Option<&str>,
) -> LocalOvsInterface {
    LocalOvsInterface {
        name: name.to_string(),
        ifindex,
        bridge: bridge.map(ToOwned::to_owned),
        iface_id: Some(port_id.to_string()),
    }
}

fn inventory(interfaces: Vec<LocalOvsInterface>) -> LocalInterfaceInventory {
    let mut by_iface_id = OrderedMap::new();
    let mut by_name = OrderedMap::new();
    for interface in interfaces {
        if let Some(iface_id) = interface.iface_id.clone() {
            by_iface_id.insert(iface_id, interface.clone());
        }
        by_name.insert(interface.name.clone(), interface);
    }
    LocalInterfaceInventory {
        ovs_bridge: "br-int".to_string(),
        ovs_error: None,
        by_iface_id,
        by_name,
        ifindexes: OrderedMap::new(),
    }
}

fn unavailable_inventory(details: &str) -> LocalInterfaceInventory {
    LocalInterfaceInventory {
        ovs_bridge: "br-int".to_string(),
        ovs_error: Some(details.to_string()),
        by_iface_id: OrderedMap::new(),
        by_name: OrderedMap::new(),
        ifindexes: OrderedMap::new(),
    }
}

fn committed_runtime(generation: u64) -> NeutronRuntimeState {
    let port = ManagedNeutronPort {
        managed_domains: vec!["acl".to_string()],
        ..managed("committed-port", "tap-committed")
    };
    let mut ports = OrderedMap::new();
    ports.insert(port.port_id.clone(), port);
    let mut port_statuses = OrderedMap::new();
    port_statuses.insert(
        "committed-port".to_string(),
        ready_status("committed-port", "tap-committed", generation),
    );
    NeutronRuntimeState {
        accepted_generation: generation,
        applied_generation: generation,
        desired_hash: Some(format!("hash-{}", generation)),
        applied_desired_hash: Some(format!("hash-{}", generation)),
        authority_state: "ready".to_string(),
        ports,
        port_statuses,
        wal_status: "commit_written".to_string(),
        ..NeutronRuntimeState::default()
    }
}

fn inventory_snapshot(
    generation: u64,
    ports: Vec<NeutronPortSnapshot>,
) -> NeutronSnapshotRequest {
    NeutronSnapshotRequest {
        schema_version: None,
        generation,
        desired_hash: Some(format!("hash-{}", generation)),
        host: None,
        ports,
    }
}

fn retryable_partial_runtime(generation: u64, desired_hash: &str) -> NeutronRuntimeState {
    NeutronRuntimeState {
        accepted_generation: generation,
        applied_generation: 0,
        pending_generation: Some(generation),
        desired_hash: Some(desired_hash.to_string()),
        applied_desired_hash: None,
        authority_state: "partial".to_string(),
        wal_status: "commit_written".to_string(),
        ..NeutronRuntimeState::default()
    }
}

fn replay_of(runtime: &NeutronRuntimeState) -> NeutronWalReplay {
    NeutronWalReplay {
        state: runtime.to_wal_state(),
        status: "replayed".to_string(),
        failures: 0,
        pending_intent: None,
    }
}

fn applying_runtime(generation: u64) -> NeutronRuntimeState {
    NeutronRuntimeState {
        accepted_generation: generation,
        applied_generation: generation - 1,
        pending_generation: Some(generation),
        desired_hash: Some(format!("hash-{generation}")),
        applied_desired_hash: Some(format!("hash-{}", generation - 1)),
        authority_state: "applying".to_string(),
        ..NeutronRuntimeState::default()
    }
}

fn target_snapshot(generation: u64, hash: &str) -> NeutronSnapshotRequest {
    NeutronSnapshotRequest {
        schema_version: None,
        generation,
        desired_hash: Some(hash.to_string()),
        host: None,
        ports: vec![port("target-port", "tap-target", true)],
    }
}

fn target_scope() -> ApplyScope {
    ApplyScope::SinglePort("target-port".to_string())
}

fn prepared(decision: AdmissionDecision) -> PreparedSnapshot {
    match decision {
        AdmissionDecision::Prepare(prepared) => prepared,
        other => panic!("the snapshot must be taken up: {other:?}"),
    }
}

#[test]
fn snapshot_generation_retry_zero_rejected_before_restore_and_wal() {
    let runtime = NeutronRuntimeState::default();
    let full = inventory_snapshot(0, Vec::new());
    let scoped = target_snapshot(0, "hash-zero-scoped");
    for (scope, snapshot) in [(ApplyScope::FullHost, full), (target_scope(), scoped)] {
        let error = admission_preflight(false, &scope, &snapshot, &runtime).unwrap_err();
        assert_eq!(error.status, ReplyStatus::BadRequest);
        assert_eq!(error.code, "INVALID_SNAPSHOT_GENERATION");
    }
}

#[test]
fn snapshots_wait_for_the_restore() {
    let runtime = NeutronRuntimeState::default();
    let snapshot = target_snapshot(1, "hash-1");
    let error = admission_preflight(false, &target_scope(), &snapshot, &runtime).unwrap_err();
    assert_eq!(error.status, ReplyStatus::ServiceUnavailable);
    assert_eq!(error.code, "neutron_runtime_restore_in_progress");
    assert_eq!(
        admission_preflight(true, &target_scope(), &snapshot, &runtime),
        Ok(None)
    );
}

#[test]
fn neutron_snapshot_port_route_rejects_path_body_mismatch() {
    let mut snapshot = target_snapshot(80, "hash-80");
    snapshot.ports = vec![port("other-port", "tap-other", true)];

    let error = admission_preflight(
        true,
        &target_scope(),
        &snapshot,
        &NeutronRuntimeState::default(),
    )
    .unwrap_err();

    assert_eq!(error.status, ReplyStatus::BadRequest);
    assert_eq!(error.code, "PORT_SCOPE_MISMATCH");
    assert!(error.details.contains("expected target-port"));
}

#[test]
fn neutron_snapshot_port_route_returns_stale_generation() {
    let mut runtime = NeutronRuntimeState::default();
    runtime.accepted_generation = 90;
    runtime.applied_generation = 90;
    runtime.applied_desired_hash = Some("hash-90".to_string());
    runtime.authority_state = "ready".to_string();
    let snapshot = target_snapshot(89, "hash-89");

    let response = match decide_admission(
        &target_scope(),
        &runtime,
        &snapshot,
        &inventory(Vec::new()),
        None,
    ) {
        AdmissionDecision::Answer(response) => response,
        other => panic!("a stale snapshot is answered: {other:?}"),
    };

    assert_eq!(response.status, "stale");
    assert_eq!(response.applied_generation, 90);
    assert_eq!(response.results[0].reason.as_deref(), Some("stale_generation"));
}

#[test]
fn neutron_snapshot_port_route_returns_hash_conflict() {
    let mut runtime = NeutronRuntimeState::default();
    runtime.accepted_generation = 100;
    runtime.applied_generation = 100;
    runtime.applied_desired_hash = Some("hash-old".to_string());
    runtime.authority_state = "ready".to_string();
    let snapshot = target_snapshot(100, "hash-new");

    match decide_admission(
        &target_scope(),
        &runtime,
        &snapshot,
        &inventory(Vec::new()),
        None,
    ) {
        AdmissionDecision::Refuse(error) => {
            assert_eq!(error.status, ReplyStatus::Conflict);
            assert_eq!(error.code, "generation_hash_conflict");
        }
        other => panic!("one generation has one hash: {other:?}"),
    }
}

fn assert_in_progress(runtime: &NeutronRuntimeState, snapshot: &NeutronSnapshotRequest) {
    match observe_admission(runtime, snapshot, &None) {
        AdmissionStep::Refuse(error) => {
            assert_eq!(error.status, ReplyStatus::Conflict);
            assert_eq!(error.code, "snapshot_apply_in_progress");
        }
        other => panic!("a pending snapshot is exclusive: {other:?}"),
    }
}

#[test]
fn snapshot_generation_retry_cross_generation_same_hash_conflicts() {
    assert_in_progress(&applying_runtime(110), &target_snapshot(111, "hash-110"));
}

#[test]
fn snapshot_generation_retry_same_generation_different_hash_conflicts() {
    assert_in_progress(&applying_runtime(110), &target_snapshot(110, "different-hash"));
}

#[test]
fn neutron_snapshot_submit_rejects_different_hash_inflight() {
    assert_in_progress(&applying_runtime(120), &target_snapshot(121, "hash-121"));
}

#[test]
fn snapshot_generation_retry_exact_active_identity_deduplicates() {
    let snapshot = target_snapshot(110, "hash-110");
    match observe_admission(&applying_runtime(110), &snapshot, &None) {
        AdmissionStep::Answer(response) => {
            assert_eq!(response.status, "pending");
            assert_eq!(response.generation, 110);
            assert_eq!(response.accepted_generation, 110);
        }
        other => panic!("the same snapshot is answered: {other:?}"),
    }
}

#[test]
fn neutron_snapshot_submit_persists_intent_before_pending_response() {
    let snapshot = target_snapshot(130, "hash-130");
    let mut runtime = NeutronRuntimeState::default();
    assert_eq!(observe_admission(&runtime, &snapshot, &None), AdmissionStep::Proceed);
    let prepared = prepared(decide_admission(
        &ApplyScope::FullHost,
        &runtime,
        &snapshot,
        &inventory(Vec::new()),
        None,
    ));
    assert_eq!(prepared.intent.kind, "snapshot");
    assert_eq!(prepared.intent.generation, 130);
    assert_eq!(prepared.intent.desired_hash.as_deref(), Some("hash-130"));
    assert!(!prepared.same_generation_retry);

    let response = accept_snapshot(&mut runtime, &snapshot);

    assert_eq!(response.status, "pending");
    assert_eq!(response.accepted_generation, 0);
    assert_eq!(response.applied_generation, 0);
    assert_eq!(runtime.accepted_generation, 0);
    assert_eq!(runtime.pending_generation, Some(130));
    assert_eq!(runtime.authority_state, "applying");
    assert_eq!(runtime.wal_status, "intent_written");
}

#[test]
fn neutron_snapshot_inventory_unavailable_intent_has_no_datapath_recovery_scope() {
    let previous = committed_runtime(130);
    let snapshot = inventory_snapshot(
        131,
        vec![NeutronPortSnapshot {
            managed_domains: vec!["acl".to_string()],
            ..port("committed-port", "tap-committed", true)
        }],
    );
    let prepared = prepared(decide_admission(
        &ApplyScope::FullHost,
        &previous,
        &snapshot,
        &unavailable_inventory("no such bridge"),
        None,
    ));

    assert!(prepared.transaction.plan.inventory_error.is_some());
    assert!(prepared.transaction.plan.attach.is_empty());
    assert!(prepared.transaction.plan.update.is_empty());
    assert!(prepared.transaction.plan.detach.is_empty());
    assert!(prepared.intent.affected_ports.is_empty());
    assert!(prepared.intent.port_ids.is_empty());
    assert_eq!(
        prepared.intent.recovery_cause.as_deref(),
        Some("inventory_unavailable")
    );
    assert!(affected_ports_for_intent(&prepared.intent, &previous.ports).is_empty());

    let blocked = match recover_failed_snapshot_transaction(
        &prepared.intent,
        &previous,
        &Vec::new(),
        &Some(HostOutcome::Done),
    ) {
        IntentRecoveryStep::Publish(blocked) => blocked,
        other => panic!("no port is to be recovered: {other:?}"),
    };
    assert_eq!(blocked.applied_generation, previous.applied_generation);
    assert_eq!(blocked.applied_desired_hash, previous.applied_desired_hash);
    assert_eq!(blocked.ports, previous.ports);
    assert_eq!(blocked.port_statuses, previous.port_statuses);
    assert_eq!(blocked.pending_generation, Some(131));
    assert_eq!(blocked.authority_state, "blocked_recovery_required");
}

#[test]
fn snapshot_generation_retry_durable_partial_reenters_exact_identity() {
    let partial = retryable_partial_runtime(1, "hash-1");
    let snapshot = inventory_snapshot(1, Vec::new());
    assert_eq!(observe_admission(&partial, &snapshot, &None), AdmissionStep::ReadLog);
    let replay = Some(replay_of(&partial));
    assert_eq!(observe_admission(&partial, &snapshot, &replay), AdmissionStep::Proceed);
    assert_eq!(
        revalidate_admission(1, &partial, &partial, &snapshot, &replay),
        AdmissionStep::Proceed
    );
    let prepared = prepared(decide_admission(
        &ApplyScope::FullHost,
        &partial,
        &snapshot,
        &inventory(Vec::new()),
        None,
    ));
    assert!(prepared.same_generation_retry);

    for (ignored, status, applied) in [
        (Vec::new(), "ok", 1),
        (
            vec![NeutronPortApplyResult {
                port_id: "transient-port".to_string(),
                ifname: "tap-transient".to_string(),
                action: "update".to_string(),
                status: "error".to_string(),
                reason: Some("transient_failure".to_string()),
            }],
            "partial",
            0,
        ),
    ] {
        let transaction = build_snapshot_transaction_from_plan(
            ApplyScope::FullHost,
            &snapshot,
            SnapshotPlan {
                attach: Vec::new(),
                update: Vec::new(),
                detach: Vec::new(),
                ignored,
                inventory_error: None,
            },
        )
        .unwrap();
        let apply = SnapshotApply::start(
            1,
            snapshot.desired_hash.clone(),
            OrderedMap::new(),
            partial.clone(),
            &transaction,
        );
        let history = SnapshotHistory {
            intent_fault: Some(HostOutcome::Done),
            applied: Some(apply.finish()),
            commit_fault: Some(HostOutcome::Done),
            commit: Some(HostOutcome::Done),
            ..SnapshotHistory::default()
        };
        match apply_neutron_snapshot_for_scope(&snapshot, &prepared.intent, &partial, &history) {
            SnapshotStep::Finish { runtime, reply } => {
                let response = reply.unwrap();
                assert_eq!(response.status, status);
                assert_eq!(response.generation, 1);
                assert_eq!(runtime.accepted_generation, 1);
                assert_eq!(runtime.applied_generation, applied);
                assert_eq!(runtime.pending_generation, if applied == 1 { None } else { Some(1) });
            }
            other => panic!("the snapshot is applied and logged: {other:?}"),
        }
    }
}

#[test]
fn snapshot_generation_retry_unsafe_wal_states_never_append_retry_intent() {
    for case in [
        "unresolved-intent",
        "committed-live-mismatch",
        "replay-failure",
        "non-partial-authority",
        "accepted-pending-mismatch",
        "committed-ports-mismatch",
        "committed-statuses-mismatch",
    ] {
        let mut partial = retryable_partial_runtime(1, "hash-1");
        let mut replay = replay_of(&partial);
        match case {
            "unresolved-intent" => {
                replay.pending_intent = Some(PendingNeutronIntent {
                    kind: "snapshot".to_string(),
                    generation: 1,
                    desired_hash: Some("hash-1".to_string()),
                    ..PendingNeutronIntent::default()
                })
            }
            "committed-live-mismatch" => {
                replay = replay_of(&retryable_partial_runtime(1, "different-hash"))
            }
            "replay-failure" => {
                replay.failures = 1;
                replay.status = "replayed_with_errors".to_string();
            }
            "non-partial-authority" => {
                partial.authority_state = "degraded".to_string();
                replay = replay_of(&partial);
            }
            "accepted-pending-mismatch" => {
                partial.accepted_generation = 0;
                replay = replay_of(&partial);
            }
            "committed-ports-mismatch" => partial.ports.insert(
                "unexpected-port".to_string(),
                managed("unexpected-port", "tap-unexpected"),
            ),
            _ => partial.port_statuses.insert(
                "unexpected-port".to_string(),
                ready_status("unexpected-port", "tap-unexpected", 1),
            ),
        }
        let snapshot = inventory_snapshot(1, Vec::new());
        match observe_admission(&partial, &snapshot, &Some(replay)) {
            AdmissionStep::Refuse(error) => {
                assert_eq!(error.status, ReplyStatus::Conflict, "{case}");
                assert_eq!(error.code, "snapshot_retry_not_safe", "{case}");
            }
            other => panic!("{case}: {other:?}"),
        }
    }
}

#[test]
fn admission_starts_over_when_the_runtime_changed() {
    let observed = committed_runtime(7);
    let mut current = observed.clone();
    current.accepted_generation = 8;
    let snapshot = inventory_snapshot(9, Vec::new());

    for attempt in 1..SNAPSHOT_ADMISSION_REVALIDATION_ATTEMPTS {
        assert_eq!(
            revalidate_admission(attempt, &observed, &current, &snapshot, &None),
            AdmissionStep::Retry
        );
    }
    match revalidate_admission(
        SNAPSHOT_ADMISSION_REVALIDATION_ATTEMPTS,
        &observed,
        &current,
        &snapshot,
        &None,
    ) {
        AdmissionStep::Refuse(error) => {
            assert_eq!(error.code, "snapshot_admission_changed");
            assert!(error.details.contains("after 3 attempts"), "{}", error.details);
        }
        other => panic!("the attempts are counted: {other:?}"),
    }
}

#[test]
fn unchanged_snapshots_are_answered_only_once_the_datapath_was_compared() {
    let mut runtime = committed_runtime(30);
    let mut desired = port("committed-port", "tap-committed", true);
    desired.managed_domains = vec!["acl".to_string()];
    let local = inventory(vec![iface(
        "tap-committed",
        "committed-port",
        Some(3),
        Some("br-int"),
    )]);
    let snapshot = inventory_snapshot(30, vec![desired]);
    let mut resolved = build_snapshot_plan(&OrderedMap::new(), &snapshot, &local).attach;
    runtime.ports.insert(
        "committed-port".to_string(),
        managed_port_from_snapshot(&resolved.remove(0)),
    );
    let decide =
        |verified| decide_admission(&ApplyScope::FullHost, &runtime, &snapshot, &local, verified);

    assert_eq!(
        decide(None),
        AdmissionDecision::VerifyProjection(vec!["tap-committed".to_string()])
    );
    match decide(Some(true)) {
        AdmissionDecision::Answer(response) => assert_eq!(response.status, "noop"),
        other => panic!("nothing changed: {other:?}"),
    }
    prepared(decide(Some(false)));
}

#[test]
fn neutron_snapshot_background_error_preserves_blocked_recovery() {
    let mut runtime = NeutronRuntimeState {
        accepted_generation: 40,
        applied_generation: 40,
        pending_generation: Some(41),
        desired_hash: Some("hash-41".to_string()),
        authority_state: "blocked_recovery_required".to_string(),
        wal_status: "recovery_commit_failed".to_string(),
        ..NeutronRuntimeState::default()
    };
    let hash = Some("hash-41".to_string());

    mark_snapshot_background_error(&mut runtime, 41, &hash, "wal_commit_failed");
    assert_eq!(runtime.authority_state, "blocked_recovery_required");
    assert_eq!(runtime.wal_status, "recovery_commit_failed");

    runtime.authority_state = "applying".to_string();
    mark_snapshot_background_error(&mut runtime, 41, &hash, "wal_commit_failed");
    assert_eq!(runtime.authority_state, "degraded");
    assert_eq!(runtime.wal_status, "background_apply_failed:wal_commit_failed");
}

fn intent_of(generation: u64) -> PendingNeutronIntent {
    PendingNeutronIntent {
        kind: "snapshot".to_string(),
        generation,
        desired_hash: Some(format!("hash-{generation}")),
        ..PendingNeutronIntent::default()
    }
}

#[test]
fn neutron_snapshot_after_intent_failure_is_durable_across_restart() {
    let previous = committed_runtime(40);
    let intent = intent_of(41);
    let fault = HostOutcome::Failed("forced after-intent failure".to_string());

    let state = match handle_snapshot_after_intent_fault(&intent, &previous, &fault, &None) {
        AfterIntentStep::Commit { state } => state,
        other => panic!("the failure is logged first: {other:?}"),
    };
    assert_eq!(state.applied_generation, 40);
    assert_eq!(state.pending_generation, Some(41));
    assert_eq!(state.authority_state, "blocked_recovery_required");
    match handle_snapshot_after_intent_fault(
        &intent,
        &previous,
        &fault,
        &Some(HostOutcome::Done),
    ) {
        AfterIntentStep::Fail { error, .. } => assert_eq!(error.code, "fault_injection"),
        other => panic!("the failure is returned: {other:?}"),
    }

    let restarted = NeutronRuntimeState::from_wal_state(state, "replayed".to_string(), 0);
    assert_eq!(restarted.applied_generation, 40);
    assert_eq!(restarted.pending_generation, Some(41));
    let request = NeutronRecoverPendingRequest {
        expected_pending_generation: 41,
        expected_desired_hash: Some("hash-41".to_string()),
        mode: Some("rollback_to_last_applied".to_string()),
    };
    let replay = replay_of(&restarted);
    match recover_pending_snapshot(
        &request,
        &replay,
        &restarted,
        &None,
        &Some(HostOutcome::Done),
    ) {
        PendingRecoveryStep::Finish { runtime, reply } => {
            let recovered = reply.unwrap();
            assert_eq!(recovered.status, "recovered");
            assert_eq!(recovered.applied_generation, 40);
            assert_eq!(runtime.pending_generation, None);
            assert_eq!(runtime.accepted_generation, 40);
            assert_eq!(runtime.applied_generation, 40);
        }
        _ => panic!("the rollback was logged"),
    }
}

#[test]
fn neutron_snapshot_after_intent_blocked_commit_failure_retains_intent() {
    let previous = committed_runtime(50);
    let fault = HostOutcome::Failed("forced after-intent failure".to_string());
    match handle_snapshot_after_intent_fault(
        &intent_of(51),
        &previous,
        &fault,
        &Some(HostOutcome::Failed("disk full".to_string())),
    ) {
        AfterIntentStep::Fail { runtime, error } => {
            assert_eq!(error.code, "fault_injection");
            assert_eq!(runtime.pending_generation, Some(51));
            assert_eq!(runtime.authority_state, "pending_recovery_commit_failed");
            assert_eq!(runtime.wal_status, "commit_failed");
            assert_eq!(runtime.applied_generation, 50);
        }
        other => panic!("the primary failure stays visible: {other:?}"),
    }
}

#[test]
fn snapshots_that_cannot_be_logged_are_recovered() {
    let previous = committed_runtime(60);
    let snapshot = inventory_snapshot(61, Vec::new());
    let transaction = build_snapshot_apply_transaction(
        &previous.ports,
        &snapshot,
        &unavailable_inventory("offline"),
        ApplyScope::FullHost,
    )
    .unwrap();
    let applied = SnapshotApply::start(
        61,
        snapshot.desired_hash.clone(),
        previous.ports.clone(),
        previous.clone(),
        &transaction,
    )
    .finish();
    let intent = intent_of(61);
    let mut history = SnapshotHistory::default();
    let mut trace = Vec::new();
    let (runtime, reply) = loop {
        match apply_neutron_snapshot_for_scope(&snapshot, &intent, &previous, &history) {
            SnapshotStep::CheckFault(name) => {
                trace.push(name);
                if history.intent_fault.is_none() {
                    history.intent_fault = Some(HostOutcome::Done);
                } else {
                    history.commit_fault = Some(HostOutcome::Done);
                }
            }
            SnapshotStep::CommitBlocked { .. } => panic!("no fault came after the intent"),
            SnapshotStep::Apply => {
                trace.push("apply");
                history.applied = Some(applied.clone());
            }
            SnapshotStep::Commit { state } => {
                trace.push("commit");
                assert_eq!(state.pending_generation, Some(61));
                history.commit = Some(HostOutcome::Failed("disk full".to_string()));
            }
            SnapshotStep::Recover => {
                trace.push("recover");
                history.recovered = Some(previous.clone());
            }
            SnapshotStep::Finish { runtime, reply } => break (runtime, reply),
        }
    };
    assert_eq!(
        trace,
        vec![
            "neutron.snapshot.after_intent",
            "apply",
            "neutron.snapshot.before_commit",
            "commit",
            "recover",
        ]
    );
    assert_eq!(runtime, previous);
    let error = reply.unwrap_err();
    assert_eq!(error.code, "wal_commit_failed");
    assert_eq!(error.details, "disk full");
    assert_eq!(error.status, ReplyStatus::InternalServerError);
}
