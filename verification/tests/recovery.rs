use neutron_agent::acl_gate::{AclReconcileHistory, NeutronAclReconcileError};
use neutron_agent::apply::SnapshotApply;
use neutron_agent::committed::{
    committed_interfaces, reconcile_committed_runtime, restore_neutron_authorities, CommittedStep,
};
use neutron_agent::delete::{
    apply_delete_neutron_port, finalize_detached_neutron_delete, finalize_recovered_delete_intent,
    publish_blocked_delete_failure, DeleteFinishStep, DeleteHistory, DeleteStep,
    NeutronDeleteResponse,
};
use neutron_agent::domains::ManagedAclPublicationMode;
use neutron_agent::health::RuntimeReconcileResult;
use neutron_agent::host::HostOutcome;
use neutron_agent::intent::{
    recover_incomplete_wal_intent, recover_intent_port, IntentPortRecovery, IntentRecoveryStep,
    PortRecoveryHistory, PortRecoveryStep,
};
use neutron_agent::inventory::LocalInterfaceInventory;
use neutron_agent::model::{
    ManagedNeutronPort, NeutronPortSnapshot, NeutronPortStatus, NeutronRuntimeState,
    NeutronSnapshotRequest, NeutronWalReplay, PendingNeutronIntent,
};
use neutron_agent::ordered::OrderedMap;
use neutron_agent::recovery::{
    recover_pending_preflight, recover_pending_snapshot, NeutronRecoverPendingRequest,
    NeutronRecoverPendingResponse, PendingRecoveryStep,
};
use neutron_agent::scope::{ApplyScope, ReplyStatus, SnapshotApplyError};
use neutron_agent::status::{domain_status, domain_status_with_action, port_runtime_status};
use neutron_agent::status_v1::{project_neutron_status_v1, NeutronStatusRequiredAction};
use neutron_agent::transaction::build_snapshot_apply_transaction;

fn managed(port_id: &str, ifname: &str) -> ManagedNeutronPort {
    ManagedNeutronPort {
        port_id: port_id.to_string(),
        ifname: ifname.to_string(),
        ifindex: None,
        managed_domains: Vec::new(),
        domain_desired_hashes: OrderedMap::new(),
    }
}

fn ready_status(port_id: &str, ifname: &str, generation: u64) -> NeutronPortStatus {
    port_runtime_status(
        port_id,
        ifname,
        generation,
        Some(format!("hash-{}", generation)),
        vec!["acl".to_string()],
        "ready",
        None,
        vec![domain_status_with_action(
            "acl",
            "ready",
            None,
            Some("enforce".to_string()),
        )],
    )
}

fn committed_runtime(generation: u64) -> NeutronRuntimeState {
    let port = ManagedNeutronPort {
        managed_domains: vec!["acl".to_string()],
        ..managed("committed-port", "tap-committed")
    };
    let mut ports = OrderedMap::new();
    ports.insert(port.port_id.clone(), port);
    let mut port_statuses = OrderedMap::new();
    port_statuses.insert(
        "committed-port".to_string(),
        ready_status("committed-port", "tap-committed", generation),
    );
    NeutronRuntimeState {
        accepted_generation: generation,
        applied_generation: generation,
        desired_hash: Some(format!("hash-{}", generation)),
        applied_desired_hash: Some(format!("hash-{}", generation)),
        authority_state: "ready".to_string(),
        ports,
        port_statuses,
        wal_status: "commit_written".to_string(),
        ..NeutronRuntimeState::default()
    }
}

fn inventory_snapshot(
    generation: u64,
    ports: Vec<NeutronPortSnapshot>,
) -> NeutronSnapshotRequest {
    NeutronSnapshotRequest {
        schema_version: None,
        generation,
        desired_hash: Some(format!("hash-{}", generation)),
        host: None,
        ports,
    }
}

fn unavailable_inventory(details: &str) -> LocalInterfaceInventory {
    LocalInterfaceInventory {
        ovs_bridge: "br-int".to_string(),
        ovs_error: Some(details.to_string()),
        by_iface_id: OrderedMap::new(),
        by_name: OrderedMap::new(),
        ifindexes: OrderedMap::new(),
    }
}

fn replay_of(runtime: &NeutronRuntimeState) -> NeutronWalReplay {
    NeutronWalReplay {
        state: runtime.to_wal_state(),
        status: match &runtime.recovery_cause {
            Some(cause) => cause.clone(),
            None => "replayed".to_string(),
        },
        failures: 0,
        pending_intent: None,
    }
}

fn request(generation: u64, hash: &str) -> NeutronRecoverPendingRequest {
    NeutronRecoverPendingRequest {
        expected_pending_generation: generation,
        expected_desired_hash: Some(hash.to_string()),
        mode: None,
    }
}

fn done() -> Option<HostOutcome> {
    Some(HostOutcome::Done)
}

fn failed(error: &str) -> Option<HostOutcome> {
    Some(HostOutcome::Failed(error.to_string()))
}

fn finish(
    step: PendingRecoveryStep,
) -> (
    NeutronRuntimeState,
    Result<NeutronRecoverPendingResponse, SnapshotApplyError>,
) {
    match step {
        PendingRecoveryStep::Finish { runtime, reply } => (runtime, reply),
        _ => panic!("nothing is left to be done"),
    }
}

fn applying() -> NeutronRuntimeState {
    NeutronRuntimeState {
        accepted_generation: 500,
        applied_generation: 500,
        pending_generation: Some(501),
        desired_hash: Some("hash-501".to_string()),
        applied_desired_hash: Some("hash-500".to_string()),
        authority_state: "applying".to_string(),
        wal_status: "intent_written".to_string(),
        ..NeutronRuntimeState::default()
    }
}

fn newer_commit() -> NeutronWalReplay {
    replay_of(&NeutronRuntimeState {
        accepted_generation: 501,
        applied_generation: 501,
        desired_hash: Some("hash-501".to_string()),
        applied_desired_hash: Some("hash-501".to_string()),
        authority_state: "ready".to_string(),
        ..NeutronRuntimeState::default()
    })
}

#[test]
fn neutron_snapshot_pending_recovery_keeps_newer_wal_commit() {
    let (runtime, reply) = finish(recover_pending_snapshot(
        &request(501, "hash-501"),
        &newer_commit(),
        &applying(),
        &None,
        &None,
    ));

    let response = reply.unwrap();
    assert_eq!(response.status, "already_committed");
    assert_eq!(response.applied_generation, 501);
    assert_eq!(response.applied_desired_hash.as_deref(), Some("hash-501"));
    assert_eq!(runtime.accepted_generation, 501);
    assert_eq!(runtime.applied_generation, 501);
    assert_eq!(runtime.pending_generation, None);
    assert_eq!(runtime.authority_state, "ready");
}

#[test]
fn neutron_pending_recovery_rejects_mismatch_with_newer_wal_commit() {
    let (runtime, reply) = finish(recover_pending_snapshot(
        &request(501, "wrong-hash"),
        &newer_commit(),
        &applying(),
        &None,
        &None,
    ));

    assert_eq!(reply.unwrap_err().code, "pending_desired_hash_mismatch");
    assert_eq!(runtime.applied_generation, 500);
    assert_eq!(runtime.pending_generation, Some(501));
}

fn partial() -> NeutronRuntimeState {
    NeutronRuntimeState {
        accepted_generation: 380,
        applied_generation: 379,
        pending_generation: Some(380),
        desired_hash: Some("hash-380".to_string()),
        applied_desired_hash: Some("hash-379".to_string()),
        authority_state: "partial".to_string(),
        wal_status: "commit_written".to_string(),
        ..NeutronRuntimeState::default()
    }
}

#[test]
fn neutron_pending_recovery_writes_wal_and_unblocks_full_resync() {
    let runtime = partial();
    let replay = replay_of(&NeutronRuntimeState::default());
    let recover = |commit: Option<HostOutcome>| {
        recover_pending_snapshot(&request(380, "hash-380"), &replay, &runtime, &None, &commit)
    };

    match recover(None) {
        PendingRecoveryStep::Commit { next } => {
            assert_eq!(next.pending_generation, None);
            assert_eq!(next.desired_hash.as_deref(), Some("hash-379"));
            assert_eq!(next.authority_state, "recovered_pending_full_resync_required");
        }
        _ => panic!("the rollback is logged first"),
    }
    let (recovered, reply) = finish(recover(done()));
    let response = reply.unwrap();
    assert_eq!(response.status, "recovered");
    assert_eq!(response.recovered_generation, 380);
    assert_eq!(response.applied_generation, 379);
    assert_eq!(response.desired_hash.as_deref(), Some("hash-379"));
    assert_eq!(recovered.accepted_generation, 379);
    assert_eq!(recovered.applied_generation, 379);
    assert_eq!(recovered.pending_generation, None);
    assert_eq!(
        recovered.authority_state,
        "recovered_pending_full_resync_required"
    );

    let (stuck, reply) = finish(recover(failed("disk full")));
    assert_eq!(reply.unwrap_err().code, "pending_recovery_commit_failed");
    assert_eq!(stuck.pending_generation, Some(380));
    assert_eq!(stuck.authority_state, "pending_recovery_commit_failed");
}

fn cold_start_outage() -> NeutronRuntimeState {
    let snapshot = inventory_snapshot(1, Vec::new());
    let transaction = build_snapshot_apply_transaction(
        &OrderedMap::new(),
        &snapshot,
        &unavailable_inventory("connection refused"),
        ApplyScope::FullHost,
    )
    .unwrap();
    SnapshotApply::start(
        1,
        snapshot.desired_hash,
        OrderedMap::new(),
        NeutronRuntimeState::default(),
        &transaction,
    )
    .finish()
    .next_runtime
}

#[test]
fn neutron_snapshot_inventory_unavailable_clean_wal_allows_live_cold_start_recovery() {
    let runtime = cold_start_outage();
    let replay = replay_of(&runtime);
    match recover_pending_snapshot(&request(1, "hash-1"), &replay, &runtime, &None, &None) {
        PendingRecoveryStep::CommitBehindBarrier { barrier, next } => {
            assert_eq!(barrier, runtime.to_wal_state());
            assert_eq!(next.pending_generation, None);
            assert_eq!(next.recovery_cause, None);
        }
        _ => panic!("an outage is closed behind a barrier"),
    }
    let (_, reply) = finish(recover_pending_snapshot(
        &request(1, "hash-1"),
        &replay,
        &runtime,
        &None,
        &done(),
    ));
    let recovered = reply.unwrap();
    assert_eq!(recovered.status, "recovered");
    assert_eq!(recovered.applied_generation, 0);
    assert_eq!(recovered.desired_hash, None);
    assert_eq!(recovered.applied_desired_hash, None);
    assert_eq!(
        recovered.authority_state,
        "recovered_pending_full_resync_required"
    );
    assert_eq!(recovered.wal_status, "pending_recovered_to_last_applied");
}

#[test]
fn neutron_snapshot_inventory_unavailable_live_recovery_rejects_corrupt_wal() {
    let runtime = cold_start_outage();
    let mut replay = replay_of(&runtime);
    replay.status = "replayed_with_errors".to_string();
    replay.failures = 1;

    let (kept, reply) = finish(recover_pending_snapshot(
        &request(1, "hash-1"),
        &replay,
        &runtime,
        &None,
        &None,
    ));

    let error = reply.unwrap_err();
    assert_eq!(error.status, ReplyStatus::Conflict);
    assert_eq!(error.code, "no_applied_snapshot_to_restore");
    assert_eq!(kept, runtime);
    assert_eq!(kept.recovery_cause.as_deref(), Some("inventory_unavailable"));
}

#[test]
fn protected_intents_are_closed_before_they_are_given_up() {
    let mut runtime = committed_runtime(10);
    runtime.accepted_generation = 11;
    runtime.pending_generation = Some(11);
    runtime.desired_hash = Some("hash-11".to_string());
    runtime.authority_state = "blocked_recovery_required".to_string();
    runtime.wal_status = "inventory_unavailable".to_string();
    runtime.recovery_cause = Some("inventory_unavailable".to_string());
    let mut replay = replay_of(&committed_runtime(10));
    replay.pending_intent = Some(PendingNeutronIntent {
        kind: "snapshot".to_string(),
        generation: 11,
        desired_hash: Some("hash-11".to_string()),
        recovery_cause: Some("inventory_unavailable".to_string()),
        ..PendingNeutronIntent::default()
    });
    let ask = request(11, "hash-11");

    match recover_pending_snapshot(&ask, &replay, &runtime, &None, &None) {
        PendingRecoveryStep::CommitInventory { intent, state } => {
            assert_eq!(intent.generation, 11);
            assert_eq!(state, runtime.to_wal_state());
        }
        _ => panic!("the intent is closed first"),
    }
    let (kept, reply) = finish(recover_pending_snapshot(
        &ask,
        &replay,
        &runtime,
        &Some(Err("disk full".to_string())),
        &None,
    ));
    assert_eq!(kept, runtime);
    assert_eq!(reply.unwrap_err().code, "pending_recovery_commit_failed");

    let (recovered, reply) = finish(recover_pending_snapshot(
        &ask,
        &replay,
        &runtime,
        &Some(Ok(replay_of(&runtime))),
        &done(),
    ));
    assert_eq!(reply.unwrap().status, "recovered");
    assert_eq!(recovered.applied_generation, 10);
    assert_eq!(recovered.pending_generation, None);
    assert_eq!(recovered.recovery_cause, None);
}

#[test]
fn recoveries_need_a_known_mode() {
    let mut ask = request(1, "hash-1");
    assert!(recover_pending_preflight(true, &ask).is_ok());
    assert_eq!(
        recover_pending_preflight(false, &ask).unwrap_err().code,
        "neutron_runtime_restore_in_progress"
    );
    ask.mode = Some("forget_everything".to_string());
    assert_eq!(
        recover_pending_preflight(true, &ask).unwrap_err().status,
        ReplyStatus::BadRequest
    );
    ask.mode = Some("rollback_to_last_applied".to_string());
    assert!(recover_pending_preflight(true, &ask).is_ok());
}

#[test]
fn logged_states_read_back() {
    let runtime = committed_runtime(9);
    let read =
        NeutronRuntimeState::from_wal_state(runtime.to_wal_state(), "commit_written".to_string(), 0);
    assert_eq!(read.ports, runtime.ports);
    assert_eq!(read.port_statuses, runtime.port_statuses);
    assert_eq!(read.applied_generation, 9);
    assert_eq!(read.applied_desired_hash, runtime.applied_desired_hash);
    assert_eq!(read.authority_state, "ready");
}

fn committed_port(runtime: &NeutronRuntimeState) -> ManagedNeutronPort {
    runtime.ports.get_text("committed-port").unwrap().clone()
}

fn finish_delete(
    step: DeleteStep,
) -> (
    Option<NeutronRuntimeState>,
    ReplyStatus,
    NeutronDeleteResponse,
) {
    match step {
        DeleteStep::Finish { runtime, status, response } => (runtime, status, response),
        other => panic!("nothing is left to be done: {other:?}"),
    }
}

#[test]
fn neutron_delete_after_detach_fault_retains_forward_recovery_intent() {
    let previous = committed_runtime(60);
    let port = committed_port(&previous);
    let fault = HostOutcome::Failed("fault injection triggered after detach".to_string());
    let step = finalize_detached_neutron_delete(&previous, &port, 60, &fault, &None, &None);
    assert!(matches!(step, DeleteStep::Checkpoint { .. }), "{step:?}");

    let (runtime, status, response) = finish_delete(finalize_detached_neutron_delete(
        &previous,
        &port,
        60,
        &fault,
        &None,
        &done(),
    ));

    assert_eq!(status, ReplyStatus::InternalServerError);
    assert!(!response.detached);
    assert_eq!(response.status, "error");
    let runtime = runtime.unwrap();
    assert!(runtime.ports.get_text("committed-port").is_some());
    assert_eq!(runtime.pending_generation, Some(60));
    assert_eq!(runtime.desired_hash, None);
    assert_eq!(runtime.authority_state, "blocked_recovery_required");
    assert_eq!(runtime.wal_status, "delete_after_detach_failed");
    assert_eq!(
        project_neutron_status_v1(&runtime).required_action,
        NeutronStatusRequiredAction::Operator
    );
}

#[test]
fn neutron_delete_blocked_checkpoint_failure_keeps_truthful_ram_and_intent() {
    let previous = committed_runtime(66);
    let port = committed_port(&previous);
    let (runtime, _, response) = finish_delete(publish_blocked_delete_failure(
        &previous,
        &port,
        66,
        "delete_detach_failed",
        "forced detach failure",
        "bypass",
        &failed("disk full"),
    ));

    let error = response.error.unwrap();
    assert!(error.contains("forced detach failure"), "{error}");
    assert!(error.contains("delete_blocked_checkpoint_failed:"), "{error}");
    let runtime = runtime.unwrap();
    assert_eq!(runtime.pending_generation, Some(66));
    assert_eq!(runtime.authority_state, "blocked_recovery_required");
    assert_eq!(runtime.wal_status, "delete_blocked_checkpoint_failed");
    let status = runtime.port_statuses.get_text("committed-port").unwrap();
    assert_ne!(status.status, "ready");
    let acl = status
        .domains
        .iter()
        .find(|domain| domain.domain == "acl")
        .unwrap();
    assert_eq!(acl.effective_action.as_deref(), Some("bypass"));
}

#[test]
fn neutron_delete_commit_failure_retains_forward_recovery_intent() {
    let previous = committed_runtime(61);
    let port = committed_port(&previous);
    let (runtime, status, response) = finish_delete(finalize_detached_neutron_delete(
        &previous,
        &port,
        61,
        &HostOutcome::Done,
        &failed("disk full"),
        &failed("disk full"),
    ));

    assert_eq!(status, ReplyStatus::InternalServerError);
    assert!(!response.detached);
    assert!(response.error.unwrap().starts_with("wal_commit_failed:"));
    let runtime = runtime.unwrap();
    assert!(runtime.ports.get_text("committed-port").is_some());
    assert_eq!(runtime.pending_generation, Some(61));
    assert_eq!(runtime.desired_hash, None);
    assert_eq!(runtime.authority_state, "blocked_recovery_required");
    assert_eq!(runtime.wal_status, "delete_blocked_checkpoint_failed");
}

#[test]
fn neutron_delete_publishes_absence_only_after_durable_commit() {
    let previous = committed_runtime(62);
    let port = committed_port(&previous);
    match finalize_detached_neutron_delete(&previous, &port, 62, &HostOutcome::Done, &None, &None) {
        DeleteStep::CommitDelete { state } => {
            assert!(state.ports.is_empty());
        }
        other => panic!("the deletion is logged first: {other:?}"),
    }
    let (runtime, status, response) = finish_delete(finalize_detached_neutron_delete(
        &previous,
        &port,
        62,
        &HostOutcome::Done,
        &done(),
        &None,
    ));

    assert_eq!(status, ReplyStatus::Success);
    assert!(response.detached);
    assert_eq!(response.status, "ok");
    let runtime = runtime.unwrap();
    assert!(runtime.ports.is_empty());
    assert!(runtime.port_statuses.is_empty());
    assert_eq!(runtime.pending_generation, None);
}

#[test]
fn deletions_run_through_their_steps() {
    let previous = committed_runtime(70);
    let port_id = "committed-port".to_string();
    let mut history = DeleteHistory::default();
    let mut trace = Vec::new();
    let (runtime, status, _) = loop {
        match apply_delete_neutron_port(&previous, &port_id, &history) {
            DeleteStep::LogIntent { generation, affected_domains, .. } => {
                trace.push("intent".to_string());
                assert_eq!(generation, 70);
                assert_eq!(affected_domains, vec!["acl".to_string(), "attach".to_string()]);
                history.intent = done();
            }
            DeleteStep::CheckFault(name) => {
                trace.push(name.to_string());
                match name {
                    "neutron.delete.after_intent" => history.intent_fault = done(),
                    "neutron.delete.after_acl_purge" => history.purge_fault = done(),
                    _ => history.precommit = done(),
                }
            }
            DeleteStep::ReadInterface { .. } => history.interface_exists = Some(true),
            DeleteStep::Purge { ifname, .. } => {
                trace.push(format!("purge {ifname}"));
                history.purged = Some(Ok(()));
            }
            DeleteStep::Detach { ifname } => {
                trace.push(format!("detach {ifname}"));
                history.detached = done();
            }
            DeleteStep::CommitDelete { .. } => {
                trace.push("commit".to_string());
                history.commit = done();
            }
            DeleteStep::Checkpoint { .. } => panic!("nothing failed"),
            DeleteStep::Finish { runtime, status, response } => break (runtime, status, response),
        }
    };
    assert_eq!(status, ReplyStatus::Success);
    assert!(runtime.unwrap().ports.is_empty());
    let purge = trace.iter().position(|step| step == "purge tap-committed").unwrap();
    let detach = trace.iter().position(|step| step == "detach tap-committed").unwrap();
    let commit = trace.iter().position(|step| step == "commit").unwrap();
    assert_eq!(trace[0], "intent");
    assert!(purge < detach && detach < commit, "{trace:?}");

    let (runtime, status, response) = finish_delete(apply_delete_neutron_port(
        &previous,
        &"other-port".to_string(),
        &DeleteHistory::default(),
    ));
    assert_eq!(runtime, None);
    assert_eq!(status, ReplyStatus::Success);
    assert_eq!(response.status, "not_found");
}

fn delete_intent(previous: &NeutronRuntimeState) -> PendingNeutronIntent {
    PendingNeutronIntent {
        kind: "delete".to_string(),
        generation: previous.accepted_generation,
        port_ids: vec!["committed-port".to_string()],
        affected_domains: vec!["acl".to_string(), "attach".to_string()],
        affected_ports: vec![committed_port(previous)],
        ..PendingNeutronIntent::default()
    }
}

#[test]
fn neutron_delete_startup_recovery_closes_forward_with_delete_commit() {
    let previous = committed_runtime(63);
    let intent = delete_intent(&previous);
    let recovered = OrderedMap::new();
    match finalize_recovered_delete_intent(&intent, &previous, &recovered, false, &None) {
        DeleteFinishStep::CommitDelete { state } => assert!(state.ports.is_empty()),
        other => panic!("the deletion is logged first: {other:?}"),
    }

    match finalize_recovered_delete_intent(&intent, &previous, &recovered, false, &done()) {
        DeleteFinishStep::Publish(finalized) => {
            assert!(finalized.ports.is_empty());
            assert_eq!(finalized.pending_generation, None);
            assert_eq!(finalized.desired_hash, previous.applied_desired_hash);
            assert_eq!(finalized.authority_state, "ready");
        }
        other => panic!("the deletion was logged: {other:?}"),
    }
}

#[test]
fn neutron_delete_startup_recovery_failure_preserves_delete_intent() {
    let previous = committed_runtime(64);
    let intent = delete_intent(&previous);
    let port = committed_port(&previous);
    let mut statuses = OrderedMap::new();
    statuses.insert(
        port.port_id.clone(),
        port_runtime_status(
            &port.port_id,
            &port.ifname,
            intent.generation,
            None,
            port.managed_domains.clone(),
            "blocked",
            Some("detach_recovery_failed".to_string()),
            vec![domain_status(
                "attach",
                "blocked",
                Some("detach_recovery_failed".to_string()),
            )],
        ),
    );

    match finalize_recovered_delete_intent(&intent, &previous, &statuses, true, &None) {
        DeleteFinishStep::Publish(finalized) => {
            assert!(finalized.ports.get_text("committed-port").is_some());
            assert_eq!(finalized.pending_generation, Some(intent.generation));
            assert_eq!(finalized.desired_hash, None);
            assert_eq!(finalized.authority_state, "blocked_recovery_required");
            assert_eq!(finalized.wal_status, "intent_recovery_blocked");
        }
        other => panic!("nothing is logged: {other:?}"),
    }
}

fn recover_port(
    intent: &PendingNeutronIntent,
    port: &ManagedNeutronPort,
    committed: bool,
    purge_error: Option<&str>,
) -> (IntentPortRecovery, Vec<&'static str>) {
    let mut history = PortRecoveryHistory::default();
    let mut trace = Vec::new();
    loop {
        match recover_intent_port(intent, port, committed, &history) {
            PortRecoveryStep::Attach { .. } => {
                trace.push("attach");
                history.attached = done();
            }
            PortRecoveryStep::Purge { .. } => {
                trace.push("purge");
                history.purged = Some(match purge_error {
                    None => Ok(()),
                    Some(error) => Err(NeutronAclReconcileError::bypass(error)),
                });
            }
            PortRecoveryStep::Detach { .. } => {
                trace.push("detach");
                history.detached = done();
            }
            PortRecoveryStep::Finish(recovery) => return (recovery, trace),
        }
    }
}

#[test]
fn ports_of_an_unfinished_intent_are_brought_back() {
    let previous = committed_runtime(40);
    let mut newcomer = managed("new-port", "tap-new");
    newcomer.managed_domains = vec!["acl".to_string()];
    let intent = PendingNeutronIntent {
        kind: "snapshot".to_string(),
        generation: 41,
        desired_hash: Some("hash-41".to_string()),
        port_ids: vec!["committed-port".to_string(), "new-port".to_string()],
        affected_domains: vec!["acl".to_string(), "attach".to_string()],
        affected_ports: vec![committed_port(&previous), newcomer],
        ..PendingNeutronIntent::default()
    };
    let mut recoveries = Vec::new();
    let mut traces = Vec::new();
    let mut commit = None;
    let runtime = loop {
        match recover_incomplete_wal_intent(&intent, &previous, &recoveries, &commit) {
            IntentRecoveryStep::RecoverPort { port, committed_before_intent } => {
                let (recovery, trace) =
                    recover_port(&intent, &port, committed_before_intent, None);
                assert!(recovery.ok, "{recovery:?}");
                traces.push((port.port_id, trace));
                recoveries.push(recovery);
            }
            IntentRecoveryStep::Commit { state } => {
                assert_eq!(state.applied_generation, 40);
                commit = done();
            }
            IntentRecoveryStep::CommitDelete { .. } => panic!("nothing was deleted"),
            IntentRecoveryStep::Publish(runtime) => break runtime,
        }
    };
    assert_eq!(
        traces,
        vec![
            ("committed-port".to_string(), vec!["attach", "purge"]),
            ("new-port".to_string(), vec!["attach", "purge", "detach"]),
        ]
    );
    assert_eq!(runtime.ports, previous.ports);
    assert_eq!(runtime.applied_generation, 40);
    assert_eq!(runtime.pending_generation, Some(41));
}

#[test]
fn ports_that_cannot_be_scrubbed_are_not_detached() {
    let previous = committed_runtime(40);
    let intent = delete_intent(&previous);
    let (recovery, trace) = recover_port(
        &intent,
        &committed_port(&previous),
        true,
        Some("map unavailable"),
    );
    assert!(!recovery.ok);
    assert_eq!(recovery.status, "blocked");
    assert_eq!(trace, vec!["attach", "purge"]);
}

#[test]
fn committed_ports_are_taken_over_once_logged() {
    let mut runtime = committed_runtime(42);
    let results = vec![RuntimeReconcileResult {
        ifname: "tap-committed".to_string(),
        action: "claim_committed".to_string(),
        status: "ready".to_string(),
        reason: Some("runtime_reconciled".to_string()),
    }];
    assert_eq!(
        committed_interfaces(&runtime),
        Some(vec![("tap-committed".to_string(), true)])
    );
    let mut live = OrderedMap::new();
    live.insert("tap-committed".to_string(), true);
    match reconcile_committed_runtime(&runtime, &live, &results, &None) {
        CommittedStep::Commit { state } => assert_eq!(state.applied_generation, 42),
        other => panic!("the claims are logged first: {other:?}"),
    }
    match reconcile_committed_runtime(&runtime, &live, &results, &failed("disk full")) {
        CommittedStep::Publish(next) => {
            assert_eq!(next.authority_state, "wal_runtime_reconcile_commit_failed");
            assert_eq!(next.wal_status, "commit_failed");
            assert_eq!(next.ports.len(), 1);
        }
        other => panic!("the failure is shown: {other:?}"),
    }
    let marks = restore_neutron_authorities(&runtime);
    assert_eq!(marks.len(), 1);
    assert_eq!(marks[0].ifname, "tap-committed");
    assert_eq!(marks[0].generation, 42);
    assert_eq!(marks[0].publication_mode, ManagedAclPublicationMode::ManagedAcl);
    assert_eq!(marks[0].projection_health, None);

    runtime.recovery_cause = Some("inventory_unavailable".to_string());
    assert_eq!(committed_interfaces(&runtime), None);
    assert_eq!(
        reconcile_committed_runtime(&runtime, &live, &results, &None),
        CommittedStep::Nothing
    );
}

#[test]
fn fault_checks_are_noted_where_they_were_asked_for() {
    let mut deletion = DeleteHistory::default();
    deletion.note_fault("neutron.delete.after_intent", HostOutcome::Done);
    assert_eq!(deletion.intent_fault, done());
    assert_eq!(deletion.purge_fault, None);
    deletion.note_fault("neutron.delete.after_acl_purge", HostOutcome::Done);
    assert_eq!(deletion.purge_fault, done());
    assert_eq!(deletion.precommit, None);
    deletion.note_fault(
        "neutron.delete.after_detach_before_commit",
        HostOutcome::Failed("fault".to_string()),
    );
    assert_eq!(deletion.precommit, failed("fault"));

    let mut change = AclReconcileHistory::default();
    change.note_fault("neutron.delete.after_intent", HostOutcome::Done);
    assert_eq!(change.disable_fault, None);
    change.note_fault("neutron.acl.after_disable", HostOutcome::Done);
    change.note_fault("neutron.acl.after_purge", failed("purge").unwrap());
    change.note_fault("neutron.acl.after_group_write", failed("group").unwrap());
    change.note_fault("neutron.acl.after_policy_write", failed("policy").unwrap());
    change.note_fault("neutron.acl.before_enable", failed("enable").unwrap());
    assert_eq!(change.disable_fault, done());
    assert_eq!(change.purge_fault, failed("purge"));
    assert_eq!(change.group_fault, failed("group"));
    assert_eq!(change.policy_fault, failed("policy"));
    assert_eq!(change.enable_fault, failed("enable"));
    assert_eq!(change.precommit_fault, None);
    change.note_fault("neutron.acl.after_enable_before_commit", HostOutcome::Done);
    assert_eq!(change.precommit_fault, done());
}
