use neutron_agent::acl_plan::AclApplyPlan;
use neutron_agent::model::{
    ManagedNeutronPort, NeutronAclSnapshot, NeutronPortSnapshot, NeutronPortStatus,
    NeutronRuntimeState,
};
use neutron_agent::ordered::OrderedMap;
use neutron_agent::payload::EncodedPayload;
use neutron_agent::scope::{ApplyScope, ReplyStatus};
use neutron_agent::status::{
    domain_status, domain_status_with_action, domain_statuses_for, port_runtime_status,
    successful_port_status, NeutronAclReconcileOutcome,
};
use neutron_agent::status_response::{
    build_neutron_status_response, readiness_reply, NEUTRON_STATUS_SCHEMA_VERSION_MAX,
};
use neutron_agent::status_v1::{
    project_neutron_status_v1, project_neutron_status_v2, project_status_v1_port_row,
    project_status_v1_ports, status_v1_allows_empty_ifname, status_v1_port_top_level_class,
    NeutronStatusDomainState, NeutronStatusEffectiveAction, NeutronStatusOverallReadiness,
    NeutronStatusRecoveryCause, NeutronStatusRequiredAction, NeutronStatusSupportDisposition,
    NeutronStatusTransactionState, NeutronStatusV1Projection, StatusV1EvidenceClass,
};
use neutron_agent::transaction::{build_snapshot_commit_runtime, port_status_seed_for_scope};

fn encoded(acl: &Option<NeutronAclSnapshot>) -> EncodedPayload {
    EncodedPayload::Json(format!("{:?}", acl).into_bytes())
}

fn state_text(state: NeutronStatusTransactionState) -> &'static str {
    match state {
        NeutronStatusTransactionState::Idle => "idle",
        NeutronStatusTransactionState::Pending => "pending",
        NeutronStatusTransactionState::Blocked => "blocked",
        NeutronStatusTransactionState::Recovery => "recovery",
        NeutronStatusTransactionState::Classified => "classified",
    }
}

fn readiness_text(readiness: NeutronStatusOverallReadiness) -> &'static str {
    match readiness {
        NeutronStatusOverallReadiness::Unknown => "unknown",
        NeutronStatusOverallReadiness::Ready => "ready",
        NeutronStatusOverallReadiness::Degraded => "degraded",
        NeutronStatusOverallReadiness::Blocked => "blocked",
    }
}

fn required_text(action: NeutronStatusRequiredAction) -> &'static str {
    match action {
        NeutronStatusRequiredAction::NoAction => "none",
        NeutronStatusRequiredAction::Poll => "poll",
        NeutronStatusRequiredAction::FullResync => "full_resync",
        NeutronStatusRequiredAction::RecoverPending => "recover_pending",
        NeutronStatusRequiredAction::RetrySnapshot => "retry_snapshot",
        NeutronStatusRequiredAction::Operator => "operator",
    }
}

fn action_text(action: NeutronStatusEffectiveAction) -> &'static str {
    match action {
        NeutronStatusEffectiveAction::Enforce => "enforce",
        NeutronStatusEffectiveAction::Bypass => "bypass",
        NeutronStatusEffectiveAction::Unchanged => "unchanged",
        NeutronStatusEffectiveAction::Cleanup => "cleanup",
        NeutronStatusEffectiveAction::NoOp => "noop",
    }
}

fn assert_projection(
    label: &str,
    projection: &NeutronStatusV1Projection,
    transaction_state: &str,
    overall_readiness: &str,
    required_action: &str,
    recovery_cause: Option<NeutronStatusRecoveryCause>,
    last_classified_generation: u64,
) {
    assert_eq!(state_text(projection.transaction_state), transaction_state, "{label}");
    assert_eq!(readiness_text(projection.overall_readiness), overall_readiness, "{label}");
    assert_eq!(required_text(projection.required_action), required_action, "{label}");
    assert_eq!(projection.recovery_cause, recovery_cause, "{label}");
    assert_eq!(
        projection.last_classified_generation, last_classified_generation,
        "{label}"
    );
}

fn edit_status(
    runtime: &mut NeutronRuntimeState,
    port_id: &str,
    edit: impl Fn(&mut NeutronPortStatus),
) {
    let mut status = runtime.port_statuses.get_text(port_id).unwrap().clone();
    edit(&mut status);
    runtime.port_statuses.insert(port_id.to_string(), status);
}

fn pending_poll() -> NeutronRuntimeState {
    NeutronRuntimeState {
        pending_generation: Some(45),
        desired_hash: Some("hash-45".to_string()),
        authority_state: "applying".to_string(),
        wal_status: "intent_written".to_string(),
        ..status_v1_ready_runtime("poll-port", "tap-poll", 42, "acl")
    }
}

fn blocked_recoverable_inventory() -> NeutronRuntimeState {
    NeutronRuntimeState {
        accepted_generation: 45,
        pending_generation: Some(45),
        desired_hash: Some("hash-45".to_string()),
        authority_state: "blocked_recovery_required".to_string(),
        wal_status: "inventory_unavailable".to_string(),
        recovery_cause: Some("inventory_unavailable".to_string()),
        ..status_v1_ready_runtime("inventory-port", "tap-inventory", 42, "acl")
    }
}

fn generation_zero_inventory_recovery() -> NeutronRuntimeState {
    NeutronRuntimeState {
        accepted_generation: 1,
        pending_generation: Some(1),
        desired_hash: Some("hash-1".to_string()),
        authority_state: "blocked_recovery_required".to_string(),
        wal_status: "inventory_unavailable".to_string(),
        recovery_cause: Some("inventory_unavailable".to_string()),
        ..NeutronRuntimeState::default()
    }
}

fn managed(port_id: &str, ifname: &str) -> ManagedNeutronPort {
    ManagedNeutronPort {
        port_id: port_id.to_string(),
        ifname: ifname.to_string(),
        ifindex: None,
        managed_domains: Vec::new(),
        domain_desired_hashes: OrderedMap::new(),
    }
}

fn port(port_id: &str, ifname: &str, eligible: bool) -> NeutronPortSnapshot {
    NeutronPortSnapshot {
        port_id: port_id.to_string(),
        ifname: ifname.to_string(),
        ifindex: None,
        eligible,
        disposition: None,
        device_owner: None,
        vif_type: None,
        vnic_type: None,
        network_backend: None,
        ovs_iface_id: None,
        managed_domains: Vec::new(),
        acl: None,
        acl_payload: encoded(&None),
    }
}

fn ready_status(port_id: &str, ifname: &str, generation: u64) -> NeutronPortStatus {
    port_runtime_status(
        port_id,
        ifname,
        generation,
        Some(format!("hash-{}", generation)),
        vec!["acl".to_string()],
        "ready",
        None,
        vec![domain_status_with_action(
            "acl",
            "ready",
            None,
            Some("enforce".to_string()),
        )],
    )
}

fn status_v1_ready_runtime(
    port_id: &str,
    ifname: &str,
    generation: u64,
    domain: &str,
) -> NeutronRuntimeState {
    let managed_port = ManagedNeutronPort {
        managed_domains: vec![domain.to_string()],
        ..managed(port_id, ifname)
    };
    let domain_status = if domain == "acl" {
        domain_status_with_action("acl", "ready", None, Some("enforce".to_string()))
    } else {
        domain_status(domain, "ready", None)
    };
    let mut ports = OrderedMap::new();
    ports.insert(port_id.to_string(), managed_port);
    let mut statuses = OrderedMap::new();
    statuses.insert(
        port_id.to_string(),
        port_runtime_status(
            port_id,
            ifname,
            generation,
            Some(format!("hash-{generation}")),
            vec![domain.to_string()],
            "ready",
            None,
            vec![domain_status],
        ),
    );
    build_snapshot_commit_runtime(
        &NeutronRuntimeState::default(),
        generation,
        Some(format!("hash-{generation}")),
        ports,
        statuses,
        false,
    )
}

fn status_v1_runtime_with_raw_port_evidence(
    label: &str,
    generation: u64,
    status: &str,
    reason: &str,
    effective_action: &str,
) -> NeutronRuntimeState {
    let port_id = format!("port-{label}");
    let ifname = format!("tap-{label}");
    let managed_port = ManagedNeutronPort {
        managed_domains: vec!["acl".to_string()],
        ..managed(&port_id, &ifname)
    };
    let mut ports = OrderedMap::new();
    ports.insert(port_id.clone(), managed_port);
    let mut statuses = OrderedMap::new();
    statuses.insert(
        port_id.clone(),
        port_runtime_status(
            &port_id,
            &ifname,
            generation,
            Some(format!("hash-{generation}")),
            vec!["acl".to_string()],
            status,
            Some(reason.to_string()),
            vec![domain_status_with_action(
                "acl",
                status,
                Some(reason.to_string()),
                Some(effective_action.to_string()),
            )],
        ),
    );
    build_snapshot_commit_runtime(
        &NeutronRuntimeState::default(),
        generation,
        Some(format!("hash-{generation}")),
        ports,
        statuses,
        false,
    )
}

struct MatrixCase {
    label: &'static str,
    runtime: NeutronRuntimeState,
    expected_state: &'static str,
    expected_readiness: &'static str,
    expected_action: &'static str,
    expected_generation: u64,
    historical_control: bool,
}

#[test]
fn neutron_snapshot_status_v1_real_terminal_degraded_commit_stays_classified() {
    let generation = 60;
    let desired_hash = format!("hash-{generation}");
    let port_snapshot = NeutronPortSnapshot {
        managed_domains: vec!["acl".to_string()],
        ..port("terminal-degraded", "tap-terminal-degraded", true)
    };
    let plan = AclApplyPlan {
        force_bypass_reason: Some("acl_rule_limit_exceeded:1001:1000".to_string()),
        ..AclApplyPlan::default()
    };
    let outcome = NeutronAclReconcileOutcome::from_plan(&plan);
    let domains = vec![outcome.domain_status(&port_snapshot)];
    let (port_status, port_reason) = successful_port_status(&domains);
    let managed_port = ManagedNeutronPort {
        managed_domains: vec!["acl".to_string()],
        ..managed(&port_snapshot.port_id, &port_snapshot.ifname)
    };
    let mut ports = OrderedMap::new();
    ports.insert(managed_port.port_id.clone(), managed_port);
    let mut statuses = OrderedMap::new();
    statuses.insert(
        port_snapshot.port_id.clone(),
        port_runtime_status(
            &port_snapshot.port_id,
            &port_snapshot.ifname,
            generation,
            Some(desired_hash.clone()),
            vec!["acl".to_string()],
            &port_status,
            port_reason,
            domains,
        ),
    );
    let runtime = build_snapshot_commit_runtime(
        &NeutronRuntimeState::default(),
        generation,
        Some(desired_hash.clone()),
        ports,
        statuses,
        false,
    );

    let committed_status = runtime
        .port_statuses
        .get(&port_snapshot.port_id)
        .expect("terminal-degraded commit must retain its port evidence");
    assert_eq!(runtime.authority_state, "ready");
    assert_eq!(runtime.pending_generation, None);
    assert_eq!(runtime.accepted_generation, generation);
    assert_eq!(runtime.applied_generation, generation);
    assert_eq!(runtime.desired_hash.as_deref(), Some(desired_hash.as_str()));
    assert_eq!(
        runtime.applied_desired_hash.as_deref(),
        Some(desired_hash.as_str())
    );
    assert_eq!(committed_status.status, "degraded");
    assert_eq!(
        committed_status.reason.as_deref(),
        Some("acl_rule_limit_exceeded:1001:1000")
    );
    assert!(committed_status.domains.iter().any(|domain| {
        domain.domain == "acl"
            && domain.status == "degraded"
            && domain.effective_action.as_deref() == Some("bypass")
    }));

    assert_projection(
        "real-terminal-degraded",
        &project_neutron_status_v1(&runtime),
        "classified",
        "degraded",
        "none",
        None,
        generation,
    );
}

#[test]
fn neutron_snapshot_status_v1_rebuild_reasons_are_exact_and_severity_gated() {
    let cases = [
        (
            "exact-runtime-rebuild-required",
            "degraded",
            "runtime_rebuild_required",
            "unchanged",
            "classified",
            "degraded",
            "full_resync",
        ),
        (
            "exact-acl-restart-replay",
            "degraded",
            "acl_restart_replay_requires_resync",
            "unchanged",
            "classified",
            "degraded",
            "full_resync",
        ),
        (
            "exact-tc-acl-link-lost",
            "degraded",
            "tc_acl_link_lost",
            "bypass",
            "classified",
            "degraded",
            "full_resync",
        ),
        (
            "diagnostic-substring-is-not-owned",
            "degraded",
            "acl_apply_failed:operator requested full_resync manually",
            "bypass",
            "classified",
            "degraded",
            "none",
        ),
        (
            "raw-blocked-outranks-owned-reason",
            "blocked",
            "runtime_rebuild_required",
            "unchanged",
            "blocked",
            "blocked",
            "operator",
        ),
        (
            "raw-error-outranks-owned-reason",
            "error",
            "acl_restart_replay_requires_resync",
            "unchanged",
            "blocked",
            "blocked",
            "operator",
        ),
        (
            "raw-recovered-outranks-owned-reason",
            "recovered",
            "tc_acl_link_lost",
            "unchanged",
            "blocked",
            "blocked",
            "operator",
        ),
    ];
    for (
        index,
        (
            label,
            raw_status,
            reason,
            effective_action,
            expected_state,
            expected_readiness,
            expected_action,
        ),
    ) in cases.into_iter().enumerate()
    {
        let generation = 70 + index as u64;
        let runtime = status_v1_runtime_with_raw_port_evidence(
            label,
            generation,
            raw_status,
            reason,
            effective_action,
        );
        let projection = project_neutron_status_v1(&runtime);
        assert_projection(
            label,
            &projection,
            expected_state,
            expected_readiness,
            expected_action,
            None,
            generation,
        );

        let expected_port_id = format!("port-{label}");
        let row = projection
            .port_statuses
            .iter()
            .find(|row| row.port_id == expected_port_id)
            .unwrap_or_else(|| panic!("{label}: the row of the port must be reported"));
        assert_eq!(row.reason.as_deref(), Some(reason), "{label}");
        assert_eq!(row.domains[0].reason.as_deref(), Some(reason), "{label}");
        assert_eq!(
            row.domains[0].effective_action.map(action_text),
            Some(effective_action),
            "{label}"
        );
    }
}

#[test]
fn neutron_snapshot_status_v1_detached_tombstones_are_diagnostic_only() {
    let detached_port = ManagedNeutronPort {
        managed_domains: vec!["acl".to_string()],
        ..managed("detached-port", "tap-detached")
    };
    let mut previous_ports = OrderedMap::new();
    previous_ports.insert(detached_port.port_id.clone(), detached_port.clone());
    let mut previous_statuses = OrderedMap::new();
    previous_statuses.insert(
        detached_port.port_id.clone(),
        ready_status(&detached_port.port_id, &detached_port.ifname, 80),
    );
    let previous = build_snapshot_commit_runtime(
        &NeutronRuntimeState::default(),
        80,
        Some("hash-80".to_string()),
        previous_ports,
        previous_statuses,
        false,
    );

    let mut detached_statuses = OrderedMap::new();
    detached_statuses.insert(
        detached_port.port_id.clone(),
        port_runtime_status(
            &detached_port.port_id,
            &detached_port.ifname,
            81,
            Some("hash-81".to_string()),
            detached_port.managed_domains.clone(),
            "detached",
            None,
            domain_statuses_for(&detached_port.managed_domains, "detached", None),
        ),
    );
    let detached_runtime = build_snapshot_commit_runtime(
        &previous,
        81,
        Some("hash-81".to_string()),
        OrderedMap::new(),
        detached_statuses,
        false,
    );

    let ready_port = ManagedNeutronPort {
        managed_domains: vec!["acl".to_string()],
        ..managed("ready-port", "tap-ready")
    };
    let mut scoped_ports = OrderedMap::new();
    scoped_ports.insert(ready_port.port_id.clone(), ready_port.clone());
    let mut scoped_statuses = port_status_seed_for_scope(
        &detached_runtime,
        &ApplyScope::SinglePort(ready_port.port_id.clone()),
    );
    scoped_statuses.insert(
        ready_port.port_id.clone(),
        ready_status(&ready_port.port_id, &ready_port.ifname, 82),
    );
    let scoped_runtime = build_snapshot_commit_runtime(
        &detached_runtime,
        82,
        Some("hash-82".to_string()),
        scoped_ports,
        scoped_statuses,
        false,
    );

    let mut orphan_runtime = scoped_runtime.clone();
    orphan_runtime.port_statuses.insert(
        "orphan-port".to_string(),
        ready_status("orphan-port", "tap-orphan", 82),
    );

    assert!(detached_runtime.ports.is_empty());
    let raw = detached_runtime.port_statuses.get_text("detached-port").unwrap();
    assert_eq!(raw.status, "detached");
    assert!(raw.domains.iter().all(|domain| domain.status == "detached"));
    let kept = scoped_runtime.port_statuses.get_text("detached-port").unwrap();
    assert_eq!(kept.generation, 81);
    assert_eq!(kept.desired_hash.as_deref(), Some("hash-81"));

    let cases = [
        (
            "full-host-detach",
            detached_runtime,
            "classified",
            "ready",
            "none",
            81,
            true,
        ),
        (
            "scoped-preserved-detach",
            scoped_runtime,
            "classified",
            "ready",
            "none",
            82,
            true,
        ),
        (
            "non-detached-orphan",
            orphan_runtime,
            "blocked",
            "blocked",
            "operator",
            82,
            false,
        ),
    ];

    for (
        label,
        runtime,
        expected_state,
        expected_readiness,
        expected_action,
        expected_generation,
        check_tombstone,
    ) in cases
    {
        let projection = project_neutron_status_v1(&runtime);
        assert_projection(
            label,
            &projection,
            expected_state,
            expected_readiness,
            expected_action,
            None,
            expected_generation,
        );
        for managed_port in runtime.ports.values() {
            let rows = projection
                .port_statuses
                .iter()
                .filter(|row| row.port_id == managed_port.port_id)
                .count();
            assert_eq!(rows, 1, "{label}: {}", managed_port.port_id);
        }
        if check_tombstone {
            let tombstones = projection
                .port_statuses
                .iter()
                .filter(|row| row.port_id == "detached-port")
                .collect::<Vec<_>>();
            assert_eq!(tombstones.len(), 1, "{label}");
            assert_eq!(tombstones[0].status, "detached", "{label}");
            assert!(!tombstones[0].domains.is_empty(), "{label}");
            for domain in &tombstones[0].domains {
                assert_eq!(domain.status, NeutronStatusDomainState::NotRequested);
                assert_eq!(
                    domain.effective_action,
                    Some(NeutronStatusEffectiveAction::Cleanup)
                );
                assert_eq!(
                    domain.support_disposition,
                    NeutronStatusSupportDisposition::NotApplicable
                );
            }
        }
    }
}

#[test]
fn neutron_snapshot_status_v1_rejects_malformed_identity_and_row_matrix() {
    let base = status_v1_ready_runtime("matrix-port", "tap-matrix", 90, "acl");
    let blocked_case = |label: &'static str, runtime: NeutronRuntimeState| MatrixCase {
        label,
        runtime,
        expected_state: "blocked",
        expected_readiness: "blocked",
        expected_action: "operator",
        expected_generation: 90,
        historical_control: false,
    };

    let mut generation_zero_pending = generation_zero_inventory_recovery();
    generation_zero_pending.accepted_generation = 0;
    generation_zero_pending.pending_generation = Some(0);

    let mut middle_pending_generation =
        pending_poll();
    middle_pending_generation.accepted_generation = 43;

    let mut baseline_accepted_inventory =
        blocked_recoverable_inventory();
    baseline_accepted_inventory.accepted_generation =
        baseline_accepted_inventory.applied_generation;

    let mut same_generation_pending_hash_mismatch = base.clone();
    same_generation_pending_hash_mismatch.accepted_generation =
        same_generation_pending_hash_mismatch.applied_generation;
    same_generation_pending_hash_mismatch.pending_generation =
        Some(same_generation_pending_hash_mismatch.applied_generation);
    same_generation_pending_hash_mismatch.desired_hash =
        Some("hash-pending-mismatch".to_string());
    same_generation_pending_hash_mismatch.recovery_cause = None;
    same_generation_pending_hash_mismatch.authority_state =
        "blocked_recovery_required".to_string();

    let mut managed_map_key_mismatch = base.clone();
    let managed_row = managed_map_key_mismatch.ports.get_text("matrix-port").unwrap().clone();
    managed_map_key_mismatch.ports.remove(&"matrix-port".to_string());
    managed_map_key_mismatch
        .ports
        .insert("managed-map-alias".to_string(), managed_row);

    let mut status_map_key_mismatch = base.clone();
    let status_row = status_map_key_mismatch.port_statuses.get_text("matrix-port").unwrap().clone();
    status_map_key_mismatch.port_statuses.remove(&"matrix-port".to_string());
    status_map_key_mismatch
        .port_statuses
        .insert("status-map-alias".to_string(), status_row);

    let mut status_embedded_id_mismatch = base.clone();
    edit_status(&mut status_embedded_id_mismatch, "matrix-port", |status| status.port_id = "embedded-status-alias".to_string());

    let mut zero_row_generation = base.clone();
    edit_status(&mut zero_row_generation, "matrix-port", |status| status.generation = 0);

    let mut future_row_generation = base.clone();
    edit_status(&mut future_row_generation, "matrix-port", |status| status.generation = 91);

    let mut null_row_hash = base.clone();
    edit_status(&mut null_row_hash, "matrix-port", |status| status.desired_hash = None);

    let mut blank_row_hash = base.clone();
    edit_status(&mut blank_row_hash, "matrix-port", |status| status.desired_hash = Some("   ".to_string()));

    let mut current_row_hash_mismatch = base.clone();
    edit_status(&mut current_row_hash_mismatch, "matrix-port", |status| status.desired_hash = Some("hash-current-mismatch".to_string()));

    let mut ready_with_degraded_domain = base.clone();
    edit_status(&mut ready_with_degraded_domain, "matrix-port", |status| status.domains[0].status = "degraded".to_string());

    let mut ready_with_blocked_domain = base.clone();
    edit_status(&mut ready_with_blocked_domain, "matrix-port", |status| status.domains[0].status = "blocked".to_string());

    let mut attach_not_requested =
        status_v1_ready_runtime("matrix-attach", "tap-matrix-attach", 90, "attach");
    edit_status(&mut attach_not_requested, "matrix-attach", |status| {
        status.status = "not_requested".to_string();
        status.domains[0].status = "not_requested".to_string();
    });

    let mut degraded_without_degraded_domain = base.clone();
    edit_status(&mut degraded_without_degraded_domain, "matrix-port", |status| status.status = "degraded".to_string());

    let mut unsupported_without_degraded_domain = base.clone();
    edit_status(&mut unsupported_without_degraded_domain, "matrix-port", |status| status.status = "unsupported".to_string());

    let mut non_detached_orphan = base.clone();
    non_detached_orphan.port_statuses.insert(
        "matrix-orphan".to_string(),
        ready_status("matrix-orphan", "tap-matrix-orphan", 90),
    );

    let scoped_target = ManagedNeutronPort {
        managed_domains: vec!["acl".to_string()],
        ..managed("matrix-port", "tap-matrix")
    };
    let scoped_older = ManagedNeutronPort {
        managed_domains: vec!["acl".to_string()],
        ..managed("matrix-old", "tap-matrix-old")
    };
    let mut scoped_previous_ports = OrderedMap::new();
    scoped_previous_ports.insert(scoped_target.port_id.clone(), scoped_target.clone());
    scoped_previous_ports.insert(scoped_older.port_id.clone(), scoped_older.clone());
    let mut scoped_previous_statuses = OrderedMap::new();
    scoped_previous_statuses.insert(
        scoped_target.port_id.clone(),
        ready_status(&scoped_target.port_id, &scoped_target.ifname, 89),
    );
    scoped_previous_statuses.insert(
        scoped_older.port_id.clone(),
        ready_status(&scoped_older.port_id, &scoped_older.ifname, 89),
    );
    let scoped_previous = build_snapshot_commit_runtime(
        &NeutronRuntimeState::default(),
        89,
        Some("hash-89".to_string()),
        scoped_previous_ports.clone(),
        scoped_previous_statuses,
        false,
    );
    let mut scoped_next_statuses = port_status_seed_for_scope(
        &scoped_previous,
        &ApplyScope::SinglePort(scoped_target.port_id.clone()),
    );
    scoped_next_statuses.insert(
        scoped_target.port_id.clone(),
        ready_status(&scoped_target.port_id, &scoped_target.ifname, 90),
    );
    let historical_scoped_control = build_snapshot_commit_runtime(
        &scoped_previous,
        90,
        Some("hash-90".to_string()),
        scoped_previous_ports,
        scoped_next_statuses,
        false,
    );

    let cases = vec![
        MatrixCase {
            label: "generation-zero-pending-zero",
            runtime: generation_zero_pending,
            expected_state: "blocked",
            expected_readiness: "blocked",
            expected_action: "operator",
            expected_generation: 0,
            historical_control: false,
        },
        MatrixCase {
            label: "middle-pending-generation",
            runtime: middle_pending_generation,
            expected_state: "blocked",
            expected_readiness: "blocked",
            expected_action: "operator",
            expected_generation: 42,
            historical_control: false,
        },
        MatrixCase {
            label: "inventory-recovery-with-baseline-accepted",
            runtime: baseline_accepted_inventory,
            expected_state: "blocked",
            expected_readiness: "blocked",
            expected_action: "operator",
            expected_generation: 42,
            historical_control: false,
        },
        blocked_case(
            "same-generation-pending-hash-mismatch",
            same_generation_pending_hash_mismatch,
        ),
        blocked_case("managed-map-key-mismatch", managed_map_key_mismatch),
        blocked_case("status-map-key-mismatch", status_map_key_mismatch),
        blocked_case("status-embedded-id-mismatch", status_embedded_id_mismatch),
        blocked_case("managed-row-generation-zero", zero_row_generation),
        blocked_case("managed-row-generation-future", future_row_generation),
        blocked_case("managed-row-hash-null", null_row_hash),
        blocked_case("managed-row-hash-blank", blank_row_hash),
        blocked_case(
            "current-generation-row-hash-mismatch",
            current_row_hash_mismatch,
        ),
        blocked_case("ready-with-degraded-domain", ready_with_degraded_domain),
        blocked_case("ready-with-blocked-domain", ready_with_blocked_domain),
        blocked_case("attach-not-requested", attach_not_requested),
        blocked_case(
            "degraded-without-terminal-degraded-domain",
            degraded_without_degraded_domain,
        ),
        blocked_case(
            "unsupported-without-terminal-degraded-domain",
            unsupported_without_degraded_domain,
        ),
        blocked_case("non-detached-extra-status-row", non_detached_orphan),
        MatrixCase {
            label: "older-scoped-row-with-historical-hash",
            runtime: historical_scoped_control,
            expected_state: "classified",
            expected_readiness: "ready",
            expected_action: "none",
            expected_generation: 90,
            historical_control: true,
        },
    ];
    for case in cases {
        let projection = project_neutron_status_v1(&case.runtime);
        assert_projection(
            case.label,
            &projection,
            case.expected_state,
            case.expected_readiness,
            case.expected_action,
            None,
            case.expected_generation,
        );
        if case.label == "managed-row-generation-future" {
            assert!(projection.port_statuses.is_empty());
        }
        if case.historical_control {
            let rows = projection
                .port_statuses
                .iter()
                .filter(|row| row.port_id == "matrix-old")
                .collect::<Vec<_>>();
            assert_eq!(rows.len(), 1);
            assert_eq!(rows[0].generation, 89);
            assert_eq!(rows[0].desired_hash.as_deref(), Some("hash-89"));
        }
    }
}

fn degraded_terminal() -> NeutronRuntimeState {
    let mut runtime = status_v1_ready_runtime("degraded-port", "", 42, "acl");
    edit_status(&mut runtime, "degraded-port", |status| {
        status.status = "degraded".to_string();
        status.reason = Some("acl_not_supported".to_string());
        status.domains = vec![domain_status_with_action(
            "acl",
            "degraded",
            Some("acl_not_supported".to_string()),
            Some("bypass".to_string()),
        )];
    });
    runtime
}

fn degraded_full_resync() -> NeutronRuntimeState {
    status_v1_runtime_with_raw_port_evidence(
        "resync",
        42,
        "degraded",
        "acl_restart_replay_requires_resync",
        "unchanged",
    )
}

#[test]
fn neutron_snapshot_status_v1_empty_ifname_exception_is_exact() {
    let positive = project_neutron_status_v1(&degraded_terminal());
    assert_projection("exact", &positive, "classified", "degraded", "none", None, 42);

    let mut resync = degraded_terminal();
    edit_status(&mut resync, "degraded-port", |status| {
        status.reason = Some("acl_restart_replay_requires_resync".to_string())
    });
    let resync = project_neutron_status_v1(&resync);
    assert_projection("resync", &resync, "classified", "degraded", "full_resync", None, 42);

    let mut nameless = degraded_full_resync();
    let mut port = nameless.ports.get_text("port-resync").unwrap().clone();
    port.ifname.clear();
    nameless.ports.insert("port-resync".to_string(), port);
    edit_status(&mut nameless, "port-resync", |status| status.ifname.clear());
    let blocked = project_neutron_status_v1(&nameless);
    assert_projection("nameless", &blocked, "blocked", "blocked", "operator", None, 42);
}

#[test]
fn neutron_readiness_returns_success_only_for_exact_ready() {
    let ready = status_v1_ready_runtime("ready-port", "tap-ready", 42, "acl");
    let mut unread = pending_poll();
    unread.wal_replay_failures = 1;
    for (label, runtime, expected) in [
        ("full-classified-ready", ready, ReplyStatus::Success),
        ("pending-poll", pending_poll(), ReplyStatus::ServiceUnavailable),
        (
            "classified-degraded-terminal",
            degraded_terminal(),
            ReplyStatus::ServiceUnavailable,
        ),
        (
            "blocked-recoverable-inventory",
            blocked_recoverable_inventory(),
            ReplyStatus::ServiceUnavailable,
        ),
        ("blocked-operator", unread, ReplyStatus::ServiceUnavailable),
    ] {
        let response = build_neutron_status_response(&runtime, false, Vec::new(), None);
        assert_eq!(readiness_reply(response.overall_readiness), expected, "{label}");
    }
}

#[test]
fn neutron_readiness_cold_start_requires_full_resync() {
    let response =
        build_neutron_status_response(&NeutronRuntimeState::default(), false, Vec::new(), None);

    assert_eq!(
        readiness_reply(response.overall_readiness),
        ReplyStatus::ServiceUnavailable
    );
    assert_eq!(state_text(response.transaction_state), "idle");
    assert_eq!(readiness_text(response.overall_readiness), "unknown");
    assert_eq!(required_text(response.required_action), "full_resync");
    assert_eq!(response.authority_state, "idle");
}

#[test]
fn neutron_snapshot_status_v1_projection_prioritizes_uncertainty_over_pending_and_recovery() {
    let mut uncertain = pending_poll();
    uncertain.wal_replay_failures = 1;
    let mut recognized = blocked_recoverable_inventory();
    recognized.wal_replay_failures = 1;
    let mut unknown_cause = blocked_recoverable_inventory();
    unknown_cause.recovery_cause = Some("inventory_timeout".to_string());

    for (label, runtime) in [
        ("wal-uncertainty-over-pending", uncertain),
        ("wal-uncertainty-over-recognized-recovery", recognized),
        ("unknown-recovery-cause", unknown_cause),
    ] {
        let projection = project_neutron_status_v1(&runtime);
        assert_projection(label, &projection, "blocked", "blocked", "operator", None, 42);
    }
}

#[test]
fn pending_and_recoverable_runtimes_ask_for_their_own_action() {
    let poll = project_neutron_status_v1(&pending_poll());
    assert_projection("poll", &poll, "pending", "unknown", "poll", None, 42);

    let cause = Some(NeutronStatusRecoveryCause::InventoryUnavailable);
    let inventory = project_neutron_status_v1(&blocked_recoverable_inventory());
    assert_projection(
        "inventory",
        &inventory,
        "blocked",
        "blocked",
        "recover_pending",
        cause,
        42,
    );
    let cold = project_neutron_status_v1(&generation_zero_inventory_recovery());
    assert_projection("cold", &cold, "blocked", "blocked", "recover_pending", cause, 0);
}

#[test]
fn retryable_partials_ask_for_the_snapshot_again() {
    let mut partial = status_v1_ready_runtime("partial-port", "tap-partial", 42, "acl");
    partial.accepted_generation = 43;
    partial.pending_generation = Some(43);
    partial.desired_hash = Some("hash-43".to_string());
    partial.authority_state = "partial".to_string();

    let plain = project_neutron_status_v2(&partial, false);
    assert_projection("plain", &plain, "blocked", "blocked", "recover_pending", None, 42);
    let retryable = project_neutron_status_v2(&partial, true);
    assert_eq!(readiness_text(retryable.overall_readiness), "blocked");
    assert_eq!(required_text(retryable.required_action), "retry_snapshot");
    assert_eq!(retryable.port_statuses, plain.port_statuses);
}

#[test]
fn status_responses_carry_the_runtime() {
    let runtime = status_v1_ready_runtime("ready-port", "tap-ready", 42, "acl");
    let response =
        build_neutron_status_response(&runtime, false, vec!["tap-ready".to_string()], None);

    assert_eq!(response.status_schema_version, NEUTRON_STATUS_SCHEMA_VERSION_MAX);
    assert_eq!(response.status_contract_hash, "v0.9-neutron-status-3");
    assert_eq!(response.generation, 42);
    assert_eq!(response.accepted_generation, 42);
    assert_eq!(response.applied_generation, 42);
    assert_eq!(response.pending_generation, None);
    assert_eq!(response.desired_hash.as_deref(), Some("hash-42"));
    assert_eq!(response.authority_state, "ready");
    assert_eq!(response.managed_ports, runtime.ports.values());
    assert_eq!(response.port_statuses.len(), 1);
    assert_eq!(response.active_instances, vec!["tap-ready".to_string()]);
    assert_eq!(response.counters, None);
}

#[test]
fn rows_are_reported_in_the_order_of_their_ports() {
    let mut runtime = status_v1_ready_runtime("port-b", "tap-b", 42, "acl");
    for (port_id, ifname) in [("port-c", "tap-c"), ("port-a", "tap-a")] {
        let mut port = managed(port_id, ifname);
        port.managed_domains = vec!["acl".to_string()];
        runtime.ports.insert(port_id.to_string(), port);
        runtime
            .port_statuses
            .insert(port_id.to_string(), ready_status(port_id, ifname, 42));
    }

    let projection = project_neutron_status_v1(&runtime);

    let ids = projection
        .port_statuses
        .iter()
        .map(|row| row.port_id.as_str())
        .collect::<Vec<_>>();
    assert_eq!(ids, vec!["port-a", "port-b", "port-c"]);
    assert_eq!(readiness_text(projection.overall_readiness), "ready");
}

fn detached_status(port_id: &str, generation: u64) -> NeutronPortStatus {
    port_runtime_status(
        port_id,
        "tap-detached",
        generation,
        Some(format!("hash-{generation}")),
        vec!["acl".to_string()],
        "detached",
        None,
        domain_statuses_for(&vec!["acl".to_string()], "detached", None),
    )
}

#[test]
fn detached_ports_decide_nothing() {
    let mut runtime = NeutronRuntimeState {
        accepted_generation: 9,
        applied_generation: 9,
        desired_hash: Some("hash-9".to_string()),
        applied_desired_hash: Some("hash-9".to_string()),
        authority_state: "ready".to_string(),
        ..NeutronRuntimeState::default()
    };
    runtime.ports.insert(
        "ready-port".to_string(),
        ManagedNeutronPort {
            managed_domains: vec!["acl".to_string()],
            ..managed("ready-port", "tap-ready")
        },
    );
    runtime.port_statuses.insert(
        "ready-port".to_string(),
        ready_status("ready-port", "tap-ready", 9),
    );
    let without = project_status_v1_ports(&runtime);
    assert_eq!(without.1, StatusV1EvidenceClass::Ready);

    for port_id in ["a-detached", "z-detached"] {
        runtime
            .port_statuses
            .insert(port_id.to_string(), detached_status(port_id, 8));
    }
    let (mut rows, class) = project_status_v1_ports(&runtime);
    let ids: Vec<&str> = rows.iter().map(|row| row.port_id.as_str()).collect();
    assert_eq!(ids, ["a-detached", "ready-port", "z-detached"]);
    assert_eq!(class, StatusV1EvidenceClass::Ready);
    rows.retain(|row| !row.port_id.ends_with("-detached"));
    assert_eq!(rows, without.0);

    runtime.port_statuses.insert(
        "late-detached".to_string(),
        detached_status("late-detached", 10),
    );
    assert_eq!(
        project_status_v1_ports(&runtime).1,
        StatusV1EvidenceClass::Blocked
    );
    runtime.port_statuses = OrderedMap::new();
    assert_eq!(
        project_status_v1_ports(&runtime).1,
        StatusV1EvidenceClass::Blocked
    );
}

#[test]
fn rows_are_judged_by_their_own_fields() {
    let ready = ready_status("port", "tap", 9);
    let unsupported = port_runtime_status(
        "port",
        "",
        9,
        Some("hash-9".to_string()),
        vec!["acl".to_string()],
        "degraded",
        None,
        vec![domain_status_with_action(
            "acl",
            "degraded",
            Some("acl_not_supported".to_string()),
            Some("bypass".to_string()),
        )],
    );
    let ready_row = project_status_v1_port_row(&ready);
    let unsupported_row = project_status_v1_port_row(&unsupported);
    assert_eq!(
        status_v1_port_top_level_class(&ready, &ready_row),
        StatusV1EvidenceClass::Ready
    );
    assert_eq!(
        status_v1_port_top_level_class(&ready, &unsupported_row),
        StatusV1EvidenceClass::Blocked
    );
    assert_eq!(
        status_v1_port_top_level_class(&unsupported, &unsupported_row),
        StatusV1EvidenceClass::TerminalDegraded
    );
    let domains = vec!["acl".to_string()];
    assert!(status_v1_allows_empty_ifname(&unsupported, &unsupported_row, &domains));
    assert!(!status_v1_allows_empty_ifname(&unsupported, &ready_row, &domains));
    assert!(!status_v1_allows_empty_ifname(&ready, &unsupported_row, &domains));
}
