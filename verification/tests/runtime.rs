use neutron_agent::admission::SnapshotAdmissionIdentity;
use neutron_agent::delete::build_blocked_delete_runtime;
use neutron_agent::domains::{
    implemented_neutron_domains, managed_port_from_snapshot, required_neutron_publication_mode,
    unsupported_neutron_managed_domains, ManagedAclPublicationMode,
};
use neutron_agent::health::{
    defer_missing_committed_interfaces, invalidate_restarted_acl_runtime,
    project_committed_runtime_reconcile, project_tc_acl_link_loss, runtime_rebuild_port_status,
    should_retry_committed_runtime_reconcile, InstanceRuntimeHealthSnapshot,
    RuntimeReconcileResult,
};
use neutron_agent::intent::blocked_unsupported_recovery;
use neutron_agent::inventory::detached_port_cleanup_requires_acl_purge;
use neutron_agent::model::{
    ManagedNeutronPort, NeutronAclSnapshot, NeutronDomainStatus, NeutronPortSnapshot,
    NeutronPortStatus, NeutronRuntimeState, PendingNeutronIntent,
};
use neutron_agent::ordered::{OrderedMap, Value};
use neutron_agent::payload::EncodedPayload;
use neutron_agent::recovery::{
    recover_pending_runtime, require_restore_ready, NeutronRecoverPendingRequest,
};
use neutron_agent::scope::ReplyStatus;
use neutron_agent::status::{
    acl_domain_status_for, domain_status, domain_status_with_action, domain_statuses_for,
    port_runtime_status, runtime_domain_statuses_for, successful_port_status,
};
use neutron_agent::status_v1::{
    project_neutron_status_v1, NeutronStatusOverallReadiness, NeutronStatusRequiredAction,
    NeutronStatusTransactionState,
};
use neutron_agent::submit::build_blocked_snapshot_runtime;
use neutron_agent::transaction::{
    can_skip_neutron_domain_reconcile, snapshot_generation_fully_applied, ManagedProjectionHealth,
};

const NEUTRON_SUPPORTED_DOMAINS: [&str; 2] = ["attach", "acl"];

fn encoded(acl: &Option<NeutronAclSnapshot>) -> EncodedPayload {
    EncodedPayload::Json(format!("{:?}", acl).into_bytes())
}

fn map_of<T: Value, const N: usize>(entries: [(String, T); N]) -> OrderedMap<String, T> {
    let mut map = OrderedMap::new();
    for (key, value) in entries {
        map.insert(key, value);
    }
    map
}

fn set_of<const N: usize>(names: [String; N]) -> OrderedMap<String, bool> {
    let mut set = OrderedMap::new();
    for name in names {
        set.insert(name, true);
    }
    set
}

fn managed(port_id: &str, ifname: &str) -> ManagedNeutronPort {
    ManagedNeutronPort {
        port_id: port_id.to_string(),
        ifname: ifname.to_string(),
        ifindex: None,
        managed_domains: Vec::new(),
        domain_desired_hashes: OrderedMap::new(),
    }
}

fn managed_with_ifindex(port_id: &str, ifname: &str, ifindex: u32) -> ManagedNeutronPort {
    ManagedNeutronPort {
        ifindex: Some(ifindex),
        ..managed(port_id, ifname)
    }
}

fn port(port_id: &str, ifname: &str, eligible: bool) -> NeutronPortSnapshot {
    NeutronPortSnapshot {
        port_id: port_id.to_string(),
        ifname: ifname.to_string(),
        ifindex: None,
        eligible,
        disposition: None,
        device_owner: None,
        vif_type: None,
        vnic_type: None,
        network_backend: None,
        ovs_iface_id: None,
        managed_domains: Vec::new(),
        acl: None,
        acl_payload: encoded(&None),
    }
}

fn ready_status(port_id: &str, ifname: &str, generation: u64) -> NeutronPortStatus {
    port_runtime_status(
        port_id,
        ifname,
        generation,
        Some(format!("hash-{}", generation)),
        vec!["acl".to_string()],
        "ready",
        None,
        vec![domain_status_with_action(
            "acl",
            "ready",
            None,
            Some("enforce".to_string()),
        )],
    )
}

fn committed_runtime(generation: u64) -> NeutronRuntimeState {
    let port = ManagedNeutronPort {
        managed_domains: vec!["acl".to_string()],
        ..managed("committed-port", "tap-committed")
    };
    let mut ports = OrderedMap::new();
    ports.insert(port.port_id.clone(), port);
    let mut port_statuses = OrderedMap::new();
    port_statuses.insert(
        "committed-port".to_string(),
        ready_status("committed-port", "tap-committed", generation),
    );
    NeutronRuntimeState {
        accepted_generation: generation,
        applied_generation: generation,
        desired_hash: Some(format!("hash-{}", generation)),
        applied_desired_hash: Some(format!("hash-{}", generation)),
        authority_state: "ready".to_string(),
        ports,
        port_statuses,
        wal_status: "commit_written".to_string(),
        ..NeutronRuntimeState::default()
    }
}

fn tc_health_projection_fixture(
    status_reason: Option<String>,
    domains: Vec<NeutronDomainStatus>,
) -> (
    NeutronRuntimeState,
    ManagedNeutronPort,
    Vec<InstanceRuntimeHealthSnapshot>,
) {
    let port = ManagedNeutronPort {
        port_id: "port-health-guard".to_string(),
        ifname: "tap-health-guard".to_string(),
        ifindex: Some(19),
        managed_domains: vec!["acl".to_string()],
        domain_desired_hashes: OrderedMap::new(),
    };
    let mut runtime = NeutronRuntimeState::default();
    runtime.ports.insert(port.port_id.clone(), port.clone());
    runtime.port_statuses.insert(
        port.port_id.clone(),
        port_runtime_status(
            &port.port_id,
            &port.ifname,
            11,
            Some("hash-11".to_string()),
            port.managed_domains.clone(),
            if status_reason.is_some() {
                "blocked"
            } else {
                "ready"
            },
            status_reason,
            domains,
        ),
    );
    let health = vec![InstanceRuntimeHealthSnapshot {
        name: port.ifname.clone(),
        acl_ready: false,
        readiness_reason: Some("missing_tc_ingress".to_string()),
    }];
    (runtime, port, health)
}

fn managed_projection_health_skip_fixture(
    managed_domains: Vec<String>,
) -> (ManagedNeutronPort, NeutronPortStatus) {
    let mut managed = managed("vm-port", "tap-vm");
    managed.managed_domains = managed_domains.clone();
    for domain in &managed_domains {
        managed
            .domain_desired_hashes
            .insert(domain.clone(), format!("{}-hash", domain));
    }
    let status = port_runtime_status(
        "vm-port",
        "tap-vm",
        1,
        Some("snapshot-hash".to_string()),
        managed_domains.clone(),
        "ready",
        None,
        domain_statuses_for(&managed_domains, "ready", None),
    );
    (managed, status)
}

#[test]
fn neutron_tc_acl_health_projection_is_deduplicated_and_preserves_resync() {
    let port = ManagedNeutronPort {
        port_id: "port-health".to_string(),
        ifname: "tap-health".to_string(),
        ifindex: Some(17),
        managed_domains: vec!["acl".to_string()],
        domain_desired_hashes: OrderedMap::new(),
    };
    let mut runtime = NeutronRuntimeState::default();
    runtime.ports.insert(port.port_id.clone(), port.clone());
    runtime.port_statuses.insert(
        port.port_id.clone(),
        port_runtime_status(
            &port.port_id,
            &port.ifname,
            9,
            Some("hash-9".to_string()),
            port.managed_domains.clone(),
            "ready",
            None,
            vec![domain_status_with_action(
                "acl",
                "ready",
                None,
                Some("enforce".to_string()),
            )],
        ),
    );
    let health = vec![InstanceRuntimeHealthSnapshot {
        name: port.ifname.clone(),
        acl_ready: false,
        readiness_reason: Some("missing_tc_egress".to_string()),
    }];

    let recovery_only = vec![InstanceRuntimeHealthSnapshot {
        readiness_reason: Some("recovery_required".to_string()),
        ..health[0].clone()
    }];
    assert!(!project_tc_acl_link_loss(&mut runtime, &recovery_only));
    assert_eq!(
        runtime.port_statuses.get(&port.port_id).unwrap().status,
        "ready"
    );

    assert!(project_tc_acl_link_loss(&mut runtime, &health));
    assert_eq!(runtime.authority_state, "runtime_degraded");
    let status = runtime.port_statuses.get(&port.port_id).unwrap();
    assert_eq!(status.reason.as_deref(), Some("tc_acl_link_lost"));
    assert!(status.domains.iter().any(|domain| {
        domain.domain == "acl"
            && domain.status == "degraded"
            && domain.effective_action.as_deref() == Some("bypass")
    }));
    assert!(!project_tc_acl_link_loss(&mut runtime, &health));

    let mut resync_runtime = NeutronRuntimeState::default();
    resync_runtime
        .ports
        .insert(port.port_id.clone(), port.clone());
    resync_runtime.port_statuses.insert(
        port.port_id.clone(),
        port_runtime_status(
            &port.port_id,
            &port.ifname,
            9,
            Some("hash-9".to_string()),
            port.managed_domains,
            "degraded",
            Some("acl_restart_replay_requires_resync".to_string()),
            vec![domain_status_with_action(
                "acl",
                "degraded",
                Some("acl_restart_replay_requires_resync".to_string()),
                Some("unchanged".to_string()),
            )],
        ),
    );
    assert!(!project_tc_acl_link_loss(&mut resync_runtime, &health));
    assert_eq!(
        resync_runtime
            .port_statuses
            .get_text("port-health")
            .unwrap()
            .reason
            .as_deref(),
        Some("acl_restart_replay_requires_resync")
    );
}

#[test]
fn neutron_tc_acl_health_projection_preserves_pending_generation_state() {
    let (mut runtime, port, health) = tc_health_projection_fixture(
        None,
        vec![domain_status_with_action(
            "acl",
            "ready",
            None,
            Some("enforce".to_string()),
        )],
    );
    runtime.pending_generation = Some(12);
    runtime.authority_state = "applying".to_string();
    runtime.wal_status = "intent_written".to_string();

    assert!(!project_tc_acl_link_loss(&mut runtime, &health));
    assert_eq!(runtime.pending_generation, Some(12));
    assert_eq!(runtime.authority_state, "applying");
    assert_eq!(runtime.wal_status, "intent_written");
    assert_eq!(
        runtime.port_statuses.get(&port.port_id).unwrap().status,
        "ready"
    );
}

#[test]
fn neutron_tc_acl_health_projection_preserves_recovery_failures() {
    for reason in [
        "attach_recovery_failed:link unavailable",
        "acl_recovery_failed:map unavailable",
    ] {
        let (mut runtime, port, health) = tc_health_projection_fixture(
            Some(reason.to_string()),
            vec![domain_status_with_action(
                "acl",
                "blocked",
                Some(reason.to_string()),
                Some("unchanged".to_string()),
            )],
        );
        runtime.authority_state = "blocked_recovery_required".to_string();
        runtime.wal_status = "intent_recovery_blocked".to_string();

        assert!(!project_tc_acl_link_loss(&mut runtime, &health));
        assert_eq!(runtime.authority_state, "blocked_recovery_required");
        assert_eq!(runtime.wal_status, "intent_recovery_blocked");
        let status = runtime.port_statuses.get(&port.port_id).unwrap();
        assert_eq!(status.status, "blocked");
        assert_eq!(status.reason.as_deref(), Some(reason));
        assert_eq!(
            status.domains[0].reason.as_deref(),
            Some(reason),
            "domain recovery evidence must be preserved"
        );
    }
}

#[test]
fn neutron_snapshot_admission_identity_detects_intervening_runtime_change() {
    let mut runtime = NeutronRuntimeState {
        accepted_generation: 40,
        applied_generation: 40,
        applied_desired_hash: Some("hash-40".to_string()),
        authority_state: "ready".to_string(),
        wal_status: "commit_written".to_string(),
        ..NeutronRuntimeState::default()
    };
    runtime
        .ports
        .insert("port-a".to_string(), managed("port-a", "tap-a"));
    let before = SnapshotAdmissionIdentity::capture(&runtime);

    runtime.accepted_generation = 41;
    runtime.pending_generation = Some(41);
    runtime.desired_hash = Some("hash-41".to_string());
    runtime.authority_state = "applying".to_string();
    runtime.wal_status = "intent_written".to_string();
    runtime
        .ports
        .insert("port-b".to_string(), managed("port-b", "tap-b"));
    let after = SnapshotAdmissionIdentity::capture(&runtime);

    assert_ne!(before, after);
}

#[test]
fn neutron_snapshot_status_v1_restart_projection_hides_supplemental_attach() {
    let mut restored = managed_with_ifindex("restart-port", "tap-restart", 17);
    restored.managed_domains = vec!["acl".to_string()];
    restored
        .domain_desired_hashes
        .insert("acl".to_string(), "acl-hash".to_string());
    let mut runtime = NeutronRuntimeState {
        accepted_generation: 42,
        applied_generation: 42,
        desired_hash: Some("hash-42".to_string()),
        applied_desired_hash: Some("hash-42".to_string()),
        authority_state: "ready".to_string(),
        ports: map_of([("restart-port".to_string(), restored.clone())]),
        port_statuses: map_of([(
            "restart-port".to_string(),
            ready_status("restart-port", "tap-restart", 42),
        )]),
        wal_status: "commit_written".to_string(),
        ..Default::default()
    };

    assert!(invalidate_restarted_acl_runtime(
        &mut runtime,
        &vec![restored.clone()],
    ));
    assert!(runtime.port_statuses.get_text("restart-port").unwrap()
        .domains
        .iter()
        .any(|domain| domain.domain == "attach" && domain.status == "ready"));

    let projection = project_neutron_status_v1(&runtime);

    assert_eq!(
        projection.transaction_state,
        NeutronStatusTransactionState::Classified
    );
    assert_eq!(
        projection.overall_readiness,
        NeutronStatusOverallReadiness::Degraded
    );
    assert_eq!(
        projection.required_action,
        NeutronStatusRequiredAction::FullResync
    );
    assert_eq!(projection.port_statuses.len(), 1);
    let wire_row = &projection.port_statuses[0];
    assert_eq!(wire_row.managed_domains, vec!["acl".to_string()]);
    assert_eq!(
        wire_row
            .domains
            .iter()
            .map(|domain| domain.domain.as_str())
            .collect::<Vec<_>>(),
        vec!["acl"]
    );
    assert!(runtime.port_statuses.get_text("restart-port").unwrap()
        .domains
        .iter()
        .any(|domain| domain.domain == "attach" && domain.status == "ready"));
}

#[test]
fn neutron_snapshot_commit_failure_builds_blocked_bypass_runtime() {
    let mut ports = OrderedMap::new();
    ports.insert(
        "port-1".to_string(),
        ManagedNeutronPort {
            managed_domains: vec!["acl".to_string()],
            ..managed("port-1", "tap-port-1")
        },
    );
    let previous = NeutronRuntimeState {
        accepted_generation: 40,
        applied_generation: 40,
        applied_desired_hash: Some("hash-40".to_string()),
        authority_state: "ready".to_string(),
        ports,
        ..NeutronRuntimeState::default()
    };
    let mut intent = PendingNeutronIntent::default();
    intent.kind = "snapshot".to_string();
    intent.generation = 41;
    intent.desired_hash = Some("hash-41".to_string());
    intent.port_ids = vec!["port-1".to_string()];
    intent.affected_domains = vec!["acl".to_string(), "attach".to_string()];
    intent.affected_ports = vec![managed("port-1", "tap-port-1")];
    let mut blocked_statuses = OrderedMap::new();
    blocked_statuses.insert(
        "port-1".to_string(),
        port_runtime_status(
            "port-1",
            "tap-port-1",
            41,
            Some("hash-41".to_string()),
            vec!["acl".to_string()],
            "blocked",
            Some("wal_commit_failed".to_string()),
            vec![domain_status_with_action(
                "acl",
                "blocked",
                Some("wal_commit_failed".to_string()),
                Some("bypass".to_string()),
            )],
        ),
    );

    let blocked = build_blocked_snapshot_runtime(
        &previous,
        &intent,
        &blocked_statuses,
        "commit_failed",
    );

    assert_eq!(blocked.accepted_generation, 40);
    assert_eq!(blocked.applied_generation, 40);
    assert_eq!(blocked.pending_generation, Some(41));
    assert_eq!(blocked.desired_hash.as_deref(), Some("hash-41"));
    assert_eq!(blocked.authority_state, "blocked_recovery_required");
    assert_eq!(blocked.wal_status, "commit_failed");
    assert_eq!(blocked.ports, previous.ports);
    let acl = &blocked.port_statuses.get_text("port-1").unwrap().domains[0];
    assert_eq!(acl.status, "blocked");
    assert_eq!(acl.effective_action.as_deref(), Some("bypass"));
}

#[test]
fn neutron_delete_failure_status_is_phase_aware_and_never_ready_enforce() {
    let previous = committed_runtime(65);
    let port = previous.ports.get_text("committed-port").unwrap().clone();

    let before = build_blocked_delete_runtime(
        &previous,
        &port,
        65,
        "delete_after_intent_failed",
        "forced after-intent failure",
        "unchanged",
    );
    let after = build_blocked_delete_runtime(
        &previous,
        &port,
        65,
        "delete_detach_failed",
        "forced detach failure",
        "bypass",
    );

    for (runtime, action) in [(&before, "unchanged"), (&after, "bypass")] {
        assert!(runtime.ports.contains_key(&port.port_id));
        assert_eq!(runtime.pending_generation, Some(65));
        assert_eq!(runtime.desired_hash, None);
        assert_eq!(runtime.authority_state, "blocked_recovery_required");
        let status = runtime.port_statuses.get(&port.port_id).unwrap();
        assert_ne!(status.status, "ready");
        let acl = status
            .domains
            .iter()
            .find(|domain| domain.domain == "acl")
            .expect("blocked delete status must include ACL evidence");
        assert_ne!(acl.status, "ready");
        assert_eq!(acl.effective_action.as_deref(), Some(action));
        assert_ne!(acl.effective_action.as_deref(), Some("enforce"));
    }
}

#[test]
fn neutron_pending_recovery_rejects_hash_mismatch() {
    let runtime = NeutronRuntimeState {
        accepted_generation: 380,
        applied_generation: 379,
        pending_generation: Some(380),
        desired_hash: Some("hash-380".to_string()),
        applied_desired_hash: Some("hash-379".to_string()),
        authority_state: "partial".to_string(),
        wal_status: "commit_written".to_string(),
        ..NeutronRuntimeState::default()
    };

    let result = recover_pending_runtime(
        &runtime,
        &NeutronRecoverPendingRequest {
            expected_pending_generation: 380,
            expected_desired_hash: Some("different-hash".to_string()),
            mode: None,
        },
    );
    assert!(
        result.is_err(),
        "hash mismatch must not clear pending state"
    );
    let error = result.err().unwrap();

    assert_eq!(error.code, "pending_desired_hash_mismatch");
}

#[test]
fn neutron_snapshot_inventory_unavailable_cold_start_recovers_empty_baseline() {
    let runtime = NeutronRuntimeState {
        accepted_generation: 1,
        applied_generation: 0,
        pending_generation: Some(1),
        desired_hash: Some("hash-1".to_string()),
        applied_desired_hash: None,
        authority_state: "blocked_recovery_required".to_string(),
        ports: OrderedMap::new(),
        port_statuses: OrderedMap::new(),
        wal_status: "inventory_unavailable".to_string(),
        ..NeutronRuntimeState::default()
    };

    let recovered = recover_pending_runtime(
        &runtime,
        &NeutronRecoverPendingRequest {
            expected_pending_generation: 1,
            expected_desired_hash: Some("hash-1".to_string()),
            mode: None,
        },
    )
    .expect("the exact inventory-only cold-start state can restore the empty baseline");

    assert_eq!(recovered.accepted_generation, 0);
    assert_eq!(recovered.applied_generation, 0);
    assert_eq!(recovered.pending_generation, None);
    assert_eq!(recovered.desired_hash, None);
    assert_eq!(recovered.applied_desired_hash, None);
    assert!(recovered.ports.is_empty());
    assert!(recovered.port_statuses.is_empty());
    assert_eq!(
        recovered.authority_state,
        "recovered_pending_full_resync_required"
    );
    assert_eq!(recovered.wal_status, "pending_recovered_to_last_applied");
}

#[test]
fn neutron_snapshot_generic_cold_start_partial_remains_unrecoverable() {
    let exact_inventory_state = NeutronRuntimeState {
        accepted_generation: 1,
        applied_generation: 0,
        pending_generation: Some(1),
        desired_hash: Some("hash-1".to_string()),
        applied_desired_hash: None,
        authority_state: "blocked_recovery_required".to_string(),
        ports: OrderedMap::new(),
        port_statuses: OrderedMap::new(),
        wal_status: "inventory_unavailable".to_string(),
        ..NeutronRuntimeState::default()
    };

    let mut wrong_cause = exact_inventory_state.clone();
    wrong_cause.wal_status = "commit_written".to_string();
    let mut wrong_authority = exact_inventory_state.clone();
    wrong_authority.authority_state = "partial".to_string();
    let mut nonempty_applied_hash = exact_inventory_state.clone();
    nonempty_applied_hash.applied_desired_hash = Some("unexpected-baseline".to_string());
    let mut nonempty_ports = exact_inventory_state.clone();
    nonempty_ports.ports.insert(
        "unexpected-port".to_string(),
        managed("unexpected-port", "tap-unexpected"),
    );
    let mut nonempty_statuses = exact_inventory_state;
    nonempty_statuses.port_statuses.insert(
        "unexpected-port".to_string(),
        ready_status("unexpected-port", "tap-unexpected", 0),
    );

    for (case, runtime) in [
        ("blocked with a generic WAL status", wrong_cause),
        ("partial authority with inventory status", wrong_authority),
        ("non-empty applied hash", nonempty_applied_hash),
        ("non-empty committed ports", nonempty_ports),
        ("non-empty committed statuses", nonempty_statuses),
    ] {
        let error = recover_pending_runtime(
            &runtime,
            &NeutronRecoverPendingRequest {
                expected_pending_generation: 1,
                expected_desired_hash: Some("hash-1".to_string()),
                mode: None,
            },
        )
        .expect_err(case);

        assert_eq!(error.code, "no_applied_snapshot_to_restore", "{}", case);
        assert_eq!(error.status, ReplyStatus::Conflict, "{}", case);
        assert_eq!(runtime.applied_generation, 0, "{}", case);
        assert_eq!(runtime.pending_generation, Some(1), "{}", case);
    }
}

#[test]
fn domain_statuses_track_each_managed_domain() {
    let domains = domain_statuses_for(
        &vec!["acl".to_string(), "qos".to_string(), "mirror".to_string()],
        "error",
        Some("apply_failed".to_string()),
    );

    assert_eq!(
        domains,
        vec![
            NeutronDomainStatus {
                domain: "acl".to_string(),
                status: "error".to_string(),
                reason: Some("apply_failed".to_string()),
                effective_action: None,
            },
            NeutronDomainStatus {
                domain: "mirror".to_string(),
                status: "error".to_string(),
                reason: Some("apply_failed".to_string()),
                effective_action: None,
            },
            NeutronDomainStatus {
                domain: "qos".to_string(),
                status: "error".to_string(),
                reason: Some("apply_failed".to_string()),
                effective_action: None,
            },
        ]
    );
}

#[test]
fn acl_domain_status_reflects_not_requested_bypass() {
    let mut snapshot = port("vm-port", "tap-vm", true);
    snapshot.managed_domains = vec!["acl".to_string()];
    snapshot.acl = Some(NeutronAclSnapshot {
        enabled: false,
        status: "not_requested".to_string(),
        reason: "no_enabled_binding".to_string(),
        effective_action: "bypass".to_string(),
        policy_id: None,
        policy_name: None,
        binding_id: None,
        source: Some("none".to_string()),
        default_action: "allow".to_string(),
        stateful: true,
        revision: 0,
        rules: Vec::new(),
        content_payload: EncodedPayload::Json(Vec::new()),
    });
    snapshot.acl_payload = encoded(&snapshot.acl);

    let status = acl_domain_status_for(&snapshot);
    let (port_status, reason) = successful_port_status(&[status.clone()]);

    assert_eq!(status.domain, "acl");
    assert_eq!(status.status, "not_requested");
    assert_eq!(status.reason.as_deref(), Some("no_enabled_binding"));
    assert_eq!(status.effective_action.as_deref(), Some("bypass"));
    assert_eq!(port_status, "not_requested");
    assert_eq!(reason.as_deref(), Some("no_enabled_binding"));
}

#[test]
fn detached_port_cleanup_skips_acl_purge_only_after_interface_disappears() {
    assert!(detached_port_cleanup_requires_acl_purge(true));
    assert!(!detached_port_cleanup_requires_acl_purge(false));
}

#[test]
fn managed_projection_outer_skip_required_publication_mode_maps_both_ownership_states_exactly()
{
    assert_eq!(
        required_neutron_publication_mode(true),
        ManagedAclPublicationMode::ManagedAcl
    );
    assert_eq!(
        required_neutron_publication_mode(false),
        ManagedAclPublicationMode::NeutronAttachOwnedStandaloneAcl
    );
}

#[test]
fn managed_projection_outer_skip_clean_noop_preserves_only_prior_verified_health() {
    let (managed, status) = managed_projection_health_skip_fixture(vec!["acl".to_string()]);
    for (health, may_skip) in [
        (ManagedProjectionHealth::Verified, true),
        (ManagedProjectionHealth::Unverified, false),
        (ManagedProjectionHealth::RepairRequired, false),
    ] {
        assert_eq!(
            can_skip_neutron_domain_reconcile(
                Some(&managed),
                Some(&status),
                &managed,
                false,
                Some(health),
            ),
            may_skip,
            "clean equal ACL reconcile with prior {health:?}"
        );
    }
}

#[test]
fn managed_projection_attach_repair_supported_domain_aliases_pass_preflight() {
    let cases = [
        Vec::<String>::new(),
        vec!["attach".to_string()],
        vec!["attach".to_string(), "acl".to_string()],
        vec![
            " ACL ".to_string(),
            "policy".to_string(),
            "groups".to_string(),
            "address-sets".to_string(),
            "aria-acl".to_string(),
        ],
    ];

    for domains in cases {
        assert_eq!(
            unsupported_neutron_managed_domains(&domains),
            Vec::<String>::new(),
            "normalized attach/ACL domains must pass preflight: {domains:?}"
        );
    }
}

#[test]
fn managed_projection_attach_repair_unsupported_domains_are_deterministic() {
    let domains = vec![
        "qos".to_string(),
        "aria-qos".to_string(),
        "mirror".to_string(),
        "aria_mirror".to_string(),
        "config".to_string(),
        "conntrack".to_string(),
        "unknown-domain".to_string(),
        "QOS".to_string(),
        "attach".to_string(),
        "acl".to_string(),
    ];

    assert_eq!(
        unsupported_neutron_managed_domains(&domains),
        vec![
            "config".to_string(),
            "conntrack".to_string(),
            "mirror".to_string(),
            "qos".to_string(),
            "unknown_domain".to_string(),
        ]
    );
}

#[test]
fn managed_projection_health_verified_acl_may_skip_equal_scoped_reconcile() {
    let (managed, status) = managed_projection_health_skip_fixture(vec!["acl".to_string()]);

    assert!(can_skip_neutron_domain_reconcile(
        Some(&managed),
        Some(&status),
        &managed,
        false,
        Some(ManagedProjectionHealth::Verified),
    ));
}

#[test]
fn managed_projection_health_unverified_acl_cannot_skip_equal_reconcile() {
    let (managed, status) = managed_projection_health_skip_fixture(vec!["acl".to_string()]);

    assert!(!can_skip_neutron_domain_reconcile(
        Some(&managed),
        Some(&status),
        &managed,
        false,
        Some(ManagedProjectionHealth::Unverified),
    ));
}

#[test]
fn managed_projection_health_missing_acl_evidence_cannot_skip_equal_reconcile() {
    let (managed, status) = managed_projection_health_skip_fixture(vec!["acl".to_string()]);

    assert!(!can_skip_neutron_domain_reconcile(
        Some(&managed),
        Some(&status),
        &managed,
        false,
        None,
    ));
}

#[test]
fn managed_projection_health_repair_required_acl_cannot_skip_equal_reconcile() {
    let (managed, status) = managed_projection_health_skip_fixture(vec!["acl".to_string()]);

    assert!(!can_skip_neutron_domain_reconcile(
        Some(&managed),
        Some(&status),
        &managed,
        false,
        Some(ManagedProjectionHealth::RepairRequired),
    ));
}

#[test]
fn managed_projection_health_full_resync_cannot_skip_even_when_verified() {
    let (managed, status) = managed_projection_health_skip_fixture(vec!["acl".to_string()]);

    assert!(!can_skip_neutron_domain_reconcile(
        Some(&managed),
        Some(&status),
        &managed,
        true,
        Some(ManagedProjectionHealth::Verified),
    ));
}

#[test]
fn managed_projection_health_non_acl_skip_does_not_require_acl_evidence() {
    let (managed, status) = managed_projection_health_skip_fixture(vec!["qos".to_string()]);

    assert!(can_skip_neutron_domain_reconcile(
        Some(&managed),
        Some(&status),
        &managed,
        false,
        None,
    ));
}

#[test]
fn neutron_acl_full_host_resync_republishes_after_unprojected_health_loss() {
    let mut snapshot = port("vm-port", "tap-vm", true);
    snapshot.managed_domains = vec!["acl".to_string()];
    snapshot.acl = Some(NeutronAclSnapshot {
        enabled: true,
        status: "ready".to_string(),
        reason: "ready".to_string(),
        effective_action: "enforce".to_string(),
        policy_id: Some("policy-1".to_string()),
        policy_name: Some("policy".to_string()),
        binding_id: Some("binding-1".to_string()),
        source: Some("port".to_string()),
        default_action: "allow".to_string(),
        stateful: true,
        revision: 1,
        rules: Vec::new(),
        content_payload: EncodedPayload::Json(Vec::new()),
    });
    snapshot.acl_payload = encoded(&snapshot.acl);
    let managed = managed_port_from_snapshot(&snapshot);
    let status = ready_status("vm-port", "tap-vm", 1);

    assert!(can_skip_neutron_domain_reconcile(
        Some(&managed),
        Some(&status),
        &managed,
        false,
        Some(ManagedProjectionHealth::Verified),
    ));
    // The detector may already have quiesced the live gate while the
    // projector has not yet replaced this still-ready status. A full-host
    // authoritative resync must therefore reconcile and republish ACL.
    assert!(!can_skip_neutron_domain_reconcile(
        Some(&managed),
        Some(&status),
        &managed,
        true,
        Some(ManagedProjectionHealth::Verified),
    ));

    let mut changed_snapshot = snapshot.clone();
    changed_snapshot.acl.as_mut().unwrap().revision = 2;
    changed_snapshot.acl_payload = encoded(&changed_snapshot.acl);
    let changed = managed_port_from_snapshot(&changed_snapshot);
    assert!(!can_skip_neutron_domain_reconcile(
        Some(&managed),
        Some(&status),
        &changed,
        false,
        Some(ManagedProjectionHealth::Verified),
    ));

    let error_status = port_runtime_status(
        "vm-port",
        "tap-vm",
        1,
        Some("hash-1".to_string()),
        vec!["acl".to_string()],
        "error",
        Some("acl_apply_failed".to_string()),
        vec![domain_status(
            "acl",
            "error",
            Some("acl_apply_failed".to_string()),
        )],
    );
    assert!(!can_skip_neutron_domain_reconcile(
        Some(&managed),
        Some(&error_status),
        &managed,
        false,
        Some(ManagedProjectionHealth::Verified),
    ));
}

#[test]
fn restart_invalidation_requires_acl_resync_without_losing_binding_or_other_hashes() {
    let mut desired = managed_with_ifindex("vm-port", "tap-vm", 17);
    desired.managed_domains = vec!["acl".to_string()];
    desired
        .domain_desired_hashes
        .insert("acl".to_string(), "acl-hash".to_string());
    desired
        .domain_desired_hashes
        .insert("future-domain".to_string(), "future-hash".to_string());

    let mut runtime = NeutronRuntimeState {
        accepted_generation: 42,
        applied_generation: 42,
        applied_desired_hash: Some("snapshot-hash".to_string()),
        authority_state: "ready".to_string(),
        ports: map_of([("vm-port".to_string(), desired.clone())]),
        port_statuses: map_of([(
            "vm-port".to_string(),
            ready_status("vm-port", "tap-vm", 42),
        )]),
        ..Default::default()
    };

    assert!(invalidate_restarted_acl_runtime(
        &mut runtime,
        &vec![desired.clone()],
    ));

    let restored = &runtime.ports.get_text("vm-port").unwrap();
    assert_eq!(restored.ifname, "tap-vm");
    assert_eq!(restored.ifindex, Some(17));
    assert!(!restored.domain_desired_hashes.get_text("acl").is_some());
    assert_eq!(
        restored.domain_desired_hashes.get_text("future-domain"),
        Some(&"future-hash".to_string())
    );

    let status = &runtime.port_statuses.get_text("vm-port").unwrap();
    assert_eq!(status.status, "degraded");
    let attach = status
        .domains
        .iter()
        .find(|domain| domain.domain == "attach")
        .expect("attach status");
    assert_eq!(attach.status, "ready");
    let acl = status
        .domains
        .iter()
        .find(|domain| domain.domain == "acl")
        .expect("ACL status");
    assert_eq!(acl.status, "degraded");
    assert_eq!(
        acl.reason.as_deref(),
        Some("acl_restart_replay_requires_resync")
    );
    assert_eq!(acl.effective_action.as_deref(), Some("unchanged"));
    assert_eq!(
        runtime.authority_state,
        "runtime_reconcile_requires_full_resync"
    );
    assert!(!snapshot_generation_fully_applied(&runtime, 42));
    assert!(!can_skip_neutron_domain_reconcile(
        Some(restored),
        Some(status),
        &desired,
        false,
        Some(ManagedProjectionHealth::Unverified),
    ));
}

#[test]
fn restart_invalidation_leaves_non_acl_runtime_ready() {
    let restored = managed_with_ifindex("vm-port", "tap-vm", 17);
    let mut runtime = NeutronRuntimeState {
        accepted_generation: 42,
        applied_generation: 42,
        authority_state: "ready".to_string(),
        ports: map_of([("vm-port".to_string(), restored.clone())]),
        port_statuses: map_of([(
            "vm-port".to_string(),
            port_runtime_status(
                "vm-port",
                "tap-vm",
                42,
                Some("snapshot-hash".to_string()),
                Vec::new(),
                "ready",
                None,
                vec![domain_status("attach", "ready", None)],
            ),
        )]),
        ..Default::default()
    };

    assert!(!invalidate_restarted_acl_runtime(
        &mut runtime,
        &vec![restored.clone()],
    ));
    assert_eq!(runtime.authority_state, "ready");
    assert_eq!(runtime.port_statuses.get_text("vm-port").unwrap().status, "ready");
}

#[test]
fn restart_invalidation_preserves_pending_recovery_authority() {
    let mut restored = managed_with_ifindex("vm-port", "tap-vm", 17);
    restored.managed_domains = vec!["acl".to_string()];
    restored
        .domain_desired_hashes
        .insert("acl".to_string(), "acl-hash".to_string());
    let mut runtime = NeutronRuntimeState {
        accepted_generation: 42,
        applied_generation: 42,
        pending_generation: Some(43),
        authority_state: "blocked_recovery_required".to_string(),
        wal_status: "intent_recovery_blocked".to_string(),
        ports: map_of([("vm-port".to_string(), restored.clone())]),
        port_statuses: map_of([(
            "vm-port".to_string(),
            ready_status("vm-port", "tap-vm", 42),
        )]),
        ..Default::default()
    };

    assert!(invalidate_restarted_acl_runtime(
        &mut runtime,
        &vec![restored.clone()],
    ));
    assert_eq!(runtime.authority_state, "blocked_recovery_required");
    assert_eq!(runtime.wal_status, "intent_recovery_blocked");
    assert_eq!(runtime.pending_generation, Some(43));
    assert!(!runtime.ports.get_text("vm-port").unwrap()
        .domain_desired_hashes.get_text("acl").is_some());
}

#[test]
fn neutron_snapshot_restart_partial_status_remains_blocked_after_runtime_reconcile_and_acl_invalidation(
) {
    let mut restored = managed_with_ifindex("vm-port", "tap-vm", 17);
    restored.managed_domains = vec!["acl".to_string()];
    restored
        .domain_desired_hashes
        .insert("acl".to_string(), "acl-hash-43".to_string());
    let prior_error = port_runtime_status(
        "vm-port",
        "tap-vm",
        43,
        Some("hash-43".to_string()),
        vec!["acl".to_string()],
        "error",
        Some("acl_apply_failed".to_string()),
        vec![domain_status_with_action(
            "acl",
            "error",
            Some("acl_apply_failed".to_string()),
            Some("unchanged".to_string()),
        )],
    );
    let before_restart = NeutronRuntimeState {
        accepted_generation: 43,
        applied_generation: 42,
        pending_generation: Some(43),
        desired_hash: Some("hash-43".to_string()),
        applied_desired_hash: Some("hash-42".to_string()),
        authority_state: "partial".to_string(),
        wal_status: "commit_written".to_string(),
        ports: map_of([("vm-port".to_string(), restored.clone())]),
        port_statuses: map_of([("vm-port".to_string(), prior_error)]),
        ..Default::default()
    };
    let reconcile_results = vec![RuntimeReconcileResult {
        ifname: "tap-vm".to_string(),
        action: "claim_committed".to_string(),
        status: "ready".to_string(),
        reason: Some("runtime_reconciled".to_string()),
    }];

    let after_restart = project_committed_runtime_reconcile(
        &before_restart,
        &vec![restored.clone()],
        42,
        Some("hash-42".to_string()),
        &reconcile_results,
        false,
    )
    .expect("a committed runtime reconcile result must project status");

    assert_eq!(after_restart.pending_generation, Some(43));
    assert_eq!(after_restart.authority_state, "partial");
    assert_eq!(after_restart.wal_status, "runtime_reconciled");
    let status = &after_restart.port_statuses.get_text("vm-port").unwrap();
    assert_eq!(status.generation, 42);
    assert_eq!(status.desired_hash.as_deref(), Some("hash-42"));
    assert_eq!(status.status, "degraded");
    assert_eq!(
        status.reason.as_deref(),
        Some("acl_restart_replay_requires_resync")
    );
    let acl = status
        .domains
        .iter()
        .find(|domain| domain.domain == "acl")
        .expect("ACL restart status");
    assert_eq!(acl.status, "degraded");
    assert_eq!(acl.effective_action.as_deref(), Some("unchanged"));

    let projection = project_neutron_status_v1(&after_restart);
    assert_eq!(
        projection.transaction_state,
        NeutronStatusTransactionState::Blocked
    );
    assert_eq!(
        projection.overall_readiness,
        NeutronStatusOverallReadiness::Blocked
    );
    assert_eq!(
        projection.required_action,
        NeutronStatusRequiredAction::RecoverPending
    );
}

#[test]
fn restart_missing_committed_tap_is_deferred_for_full_resync() {
    let mut results = vec![
        RuntimeReconcileResult {
            ifname: "tap-missing".to_string(),
            action: "claim_committed".to_string(),
            status: "blocked".to_string(),
            reason: Some("attach failed: interface not found".to_string()),
        },
        RuntimeReconcileResult {
            ifname: "tap-present".to_string(),
            action: "claim_committed".to_string(),
            status: "blocked".to_string(),
            reason: Some("attach failed: verifier rejected program".to_string()),
        },
    ];
    let missing_ifnames = set_of(["tap-missing".to_string()]);

    assert!(defer_missing_committed_interfaces(
        &mut results,
        &missing_ifnames,
    ));
    assert_eq!(results[0].status, "deferred");
    assert_eq!(
        results[0].reason.as_deref(),
        Some("runtime_rebuild_required")
    );
    assert_eq!(results[1].status, "blocked");
    assert_eq!(
        results[1].reason.as_deref(),
        Some("attach failed: verifier rejected program")
    );
}

#[test]
fn restart_missing_tap_projects_degraded_full_resync_not_operator() {
    let mut port = managed("vm-port", "tap-missing");
    port.managed_domains = vec!["acl".to_string()];
    let status = runtime_rebuild_port_status(&port, 42, Some("hash-42".to_string()));
    let runtime = NeutronRuntimeState {
        accepted_generation: 42,
        applied_generation: 42,
        desired_hash: Some("hash-42".to_string()),
        applied_desired_hash: Some("hash-42".to_string()),
        authority_state: "runtime_reconcile_requires_full_resync".to_string(),
        wal_status: "runtime_reconcile_requires_full_resync".to_string(),
        ports: map_of([(port.port_id.clone(), port)]),
        port_statuses: map_of([("vm-port".to_string(), status)]),
        ..Default::default()
    };

    let projection = project_neutron_status_v1(&runtime);
    assert_eq!(
        projection.transaction_state,
        NeutronStatusTransactionState::Classified
    );
    assert_eq!(
        projection.overall_readiness,
        NeutronStatusOverallReadiness::Degraded
    );
    assert_eq!(
        projection.required_action,
        NeutronStatusRequiredAction::FullResync
    );
}

#[test]
fn recovered_inventory_retries_runtime_reconcile_once_tap_returns() {
    let mut port = managed("vm-port", "tap-vm");
    port.ifindex = None;
    port.managed_domains = vec!["acl".to_string()];
    let mut runtime = NeutronRuntimeState {
        accepted_generation: 42,
        applied_generation: 42,
        desired_hash: Some("hash-42".to_string()),
        applied_desired_hash: Some("hash-42".to_string()),
        authority_state: "recovered_pending_full_resync_required".to_string(),
        ports: map_of([(port.port_id.clone(), port.clone())]),
        ..Default::default()
    };

    assert!(!should_retry_committed_runtime_reconcile(
        &runtime,
        &OrderedMap::new(),
    ));

    let live_ifnames = set_of(["tap-vm".to_string()]);
    assert!(should_retry_committed_runtime_reconcile(
        &runtime,
        &live_ifnames,
    ));

    runtime.port_statuses.insert(
        "vm-port".to_string(),
        runtime_rebuild_port_status(
            &port,
            runtime.applied_generation,
            runtime.applied_desired_hash.clone(),
        ),
    );
    runtime.authority_state = "runtime_reconcile_requires_full_resync".to_string();
    assert!(should_retry_committed_runtime_reconcile(
        &runtime,
        &live_ifnames,
    ));

    runtime.port_statuses.insert(
        "vm-port".to_string(),
        port_runtime_status(
            "vm-port",
            "tap-vm",
            42,
            Some("hash-42".to_string()),
            vec!["acl".to_string()],
            "degraded",
            Some("acl_restart_replay_requires_resync".to_string()),
            vec![domain_status_with_action(
                "acl",
                "degraded",
                Some("acl_restart_replay_requires_resync".to_string()),
                Some("unchanged".to_string()),
            )],
        ),
    );
    assert!(!should_retry_committed_runtime_reconcile(
        &runtime,
        &live_ifnames,
    ));
}

#[test]
fn runtime_domain_statuses_include_attach_domain() {
    let statuses = runtime_domain_statuses_for(
        &vec!["acl".to_string(), "qos".to_string()],
        "blocked",
        Some("runtime_reconcile_failed".to_string()),
    );

    assert_eq!(
        statuses
            .iter()
            .map(|status| status.domain.as_str())
            .collect::<Vec<_>>(),
        vec!["acl", "attach", "qos"]
    );
    assert!(statuses.iter().all(|status| status.status == "blocked"));
}

#[test]
fn pending_intent_recovery_blocks_unimplemented_domains() {
    let domains = vec![
        "attach".to_string(),
        "acl".to_string(),
        "qos".to_string(),
        "mirror".to_string(),
    ];

    let recovery = blocked_unsupported_recovery(&domains)
        .expect("qos/mirror recovery must be rejected");

    assert!(!recovery.ok);
    assert_eq!("blocked", recovery.status);
    assert_eq!(domains, recovery.managed_domains);
    assert!(recovery
        .reason
        .as_deref()
        .map(|reason| reason.contains("qos,mirror"))
        .unwrap_or(false));
    assert!(recovery.domains.iter().all(|domain| domain.status == "blocked"));
    assert!(recovery.domains.iter().any(|domain| {
        domain.domain == "qos"
            && domain.reason.as_deref() == Some("unsupported_recovery_domain:qos")
    }));
    assert!(recovery.domains.iter().any(|domain| {
        domain.domain == "mirror"
            && domain.reason.as_deref() == Some("unsupported_recovery_domain:mirror")
    }));
}

#[test]
fn neutron_runtime_restore_gate_rejects_mutations_until_ready() {
    let error = require_restore_ready(false).unwrap_err();

    assert_eq!(error.status, ReplyStatus::ServiceUnavailable);
    assert_eq!(error.code, "neutron_runtime_restore_in_progress");
    assert!(require_restore_ready(true).is_ok());
}

#[test]
fn domain_authority_implemented_domains_match_advertised_capabilities() {
    assert_eq!(
        implemented_neutron_domains(),
        NEUTRON_SUPPORTED_DOMAINS,
        "capabilities must advertise exactly the domains implemented by runtime reconcile",
    );
}

/// What the owner of the datapath confirms: the mode in place has to be the required one.
fn managed_neutron_authority_confirmation_allowed(
    attached: bool,
    mode: Option<ManagedAclPublicationMode>,
    required_mode: Option<ManagedAclPublicationMode>,
    health: Option<ManagedProjectionHealth>,
    required_health: Option<ManagedProjectionHealth>,
) -> bool {
    attached
        && (required_mode.is_none() || mode == required_mode)
        && (required_health.is_none() || health == required_health)
}

#[test]
fn managed_projection_outer_skip_non_acl_authority_commit_requires_attach_owned_mode() {
    let required_mode = Some(required_neutron_publication_mode(false));

    assert!(
        managed_neutron_authority_confirmation_allowed(
            true,
            Some(ManagedAclPublicationMode::NeutronAttachOwnedStandaloneAcl),
            required_mode,
            None,
            None,
        )
    );
    assert!(
        !managed_neutron_authority_confirmation_allowed(
            true,
            Some(ManagedAclPublicationMode::ManagedAcl),
            required_mode,
            Some(ManagedProjectionHealth::Verified),
            None,
        )
    );
    assert!(
        !managed_neutron_authority_confirmation_allowed(
            true,
            Some(ManagedAclPublicationMode::StandaloneCompatibility),
            required_mode,
            None,
            None,
        )
    );
}
