use neutron_agent::domains::{
    affected_domains_for_ports, domain_desired_hashes_from_snapshot, normalize_managed_domains,
};
use neutron_agent::inventory::{LocalInterfaceInventory, LocalOvsInterface};
use neutron_agent::model::{
    ManagedNeutronPort, NeutronAclSnapshot, NeutronPortSnapshot, NeutronPortStatus,
    NeutronRuntimeState, NeutronSnapshotRequest, PendingNeutronIntent,
};
use neutron_agent::ordered::OrderedMap;
use neutron_agent::payload::EncodedPayload;
use neutron_agent::plan::{build_snapshot_plan, build_snapshot_plan_for_scope, SnapshotPlan};
use neutron_agent::scope::{
    snapshot_schema_supported, validate_snapshot_preflight, ApplyScope, ReplyStatus,
    SnapshotScopeError, NEUTRON_UDS_SCHEMA_VERSION_MAX, NEUTRON_UDS_SCHEMA_VERSION_MIN,
};
use neutron_agent::status::{domain_status_with_action, port_runtime_status};
use neutron_agent::transaction::{
    affected_ports_for_intent, build_snapshot_apply_transaction, build_snapshot_commit_runtime,
    build_snapshot_transaction_from_plan, managed_acl_projection_verification_targets,
    port_status_seed_for_scope, snapshot_early_response_for_scope,
    snapshot_generation_fully_applied, snapshot_has_runtime_drift,
};

fn encoded(acl: &Option<NeutronAclSnapshot>) -> EncodedPayload {
    EncodedPayload::Json(format!("{:?}", acl).into_bytes())
}

fn managed(port_id: &str, ifname: &str) -> ManagedNeutronPort {
    ManagedNeutronPort {
        port_id: port_id.to_string(),
        ifname: ifname.to_string(),
        ifindex: None,
        managed_domains: Vec::new(),
        domain_desired_hashes: OrderedMap::new(),
    }
}

fn managed_with_ifindex(port_id: &str, ifname: &str, ifindex: u32) -> ManagedNeutronPort {
    ManagedNeutronPort {
        ifindex: Some(ifindex),
        ..managed(port_id, ifname)
    }
}

fn port(port_id: &str, ifname: &str, eligible: bool) -> NeutronPortSnapshot {
    NeutronPortSnapshot {
        port_id: port_id.to_string(),
        ifname: ifname.to_string(),
        ifindex: None,
        eligible,
        disposition: None,
        device_owner: None,
        vif_type: None,
        vnic_type: None,
        network_backend: None,
        ovs_iface_id: None,
        managed_domains: Vec::new(),
        acl: None,
        acl_payload: encoded(&None),
    }
}

fn ready_status(port_id: &str, ifname: &str, generation: u64) -> NeutronPortStatus {
    port_runtime_status(
        port_id,
        ifname,
        generation,
        Some(format!("hash-{}", generation)),
        vec!["acl".to_string()],
        "ready",
        None,
        vec![domain_status_with_action(
            "acl",
            "ready",
            None,
            Some("enforce".to_string()),
        )],
    )
}

fn iface(
    name: &str,
    port_id: &str,
    ifindex: Option<u32>,
    bridge: Option<&str>,
) -> LocalOvsInterface {
    LocalOvsInterface {
        name: name.to_string(),
        ifindex,
        bridge: bridge.map(ToOwned::to_owned),
        iface_id: Some(port_id.to_string()),
    }
}

fn inventory(interfaces: Vec<LocalOvsInterface>) -> LocalInterfaceInventory {
    let mut by_iface_id = OrderedMap::new();
    let mut by_name = OrderedMap::new();
    for interface in interfaces {
        if let Some(iface_id) = interface.iface_id.clone() {
            by_iface_id.insert(iface_id, interface.clone());
        }
        by_name.insert(interface.name.clone(), interface);
    }
    LocalInterfaceInventory {
        ovs_bridge: "br-int".to_string(),
        ovs_error: None,
        by_iface_id,
        by_name,
        ifindexes: OrderedMap::new(),
    }
}

fn unavailable_inventory(details: &str) -> LocalInterfaceInventory {
    LocalInterfaceInventory {
        ovs_bridge: "br-int".to_string(),
        ovs_error: Some(details.to_string()),
        by_iface_id: OrderedMap::new(),
        by_name: OrderedMap::new(),
        ifindexes: OrderedMap::new(),
    }
}

fn committed_runtime(generation: u64) -> NeutronRuntimeState {
    let port = ManagedNeutronPort {
        managed_domains: vec!["acl".to_string()],
        ..managed("committed-port", "tap-committed")
    };
    let mut ports = OrderedMap::new();
    ports.insert(port.port_id.clone(), port);
    let mut port_statuses = OrderedMap::new();
    port_statuses.insert(
        "committed-port".to_string(),
        ready_status("committed-port", "tap-committed", generation),
    );
    NeutronRuntimeState {
        accepted_generation: generation,
        applied_generation: generation,
        desired_hash: Some(format!("hash-{}", generation)),
        applied_desired_hash: Some(format!("hash-{}", generation)),
        authority_state: "ready".to_string(),
        ports,
        port_statuses,
        wal_status: "commit_written".to_string(),
        ..NeutronRuntimeState::default()
    }
}

fn inventory_snapshot(
    generation: u64,
    ports: Vec<NeutronPortSnapshot>,
) -> NeutronSnapshotRequest {
    NeutronSnapshotRequest {
        schema_version: None,
        generation,
        desired_hash: Some(format!("hash-{}", generation)),
        host: None,
        ports,
    }
}

#[test]
fn neutron_snapshot_plan_attaches_only_eligible_ports() {
    let current = OrderedMap::new();
    let local = inventory(vec![iface("tap111", "vm-port", Some(11), Some("br-int"))]);
    let snapshot = NeutronSnapshotRequest {
        schema_version: None,
        generation: 1,
        desired_hash: None,
        host: None,
        ports: vec![
            port("vm-port", "tap111", true),
            NeutronPortSnapshot {
                disposition: Some("service port".to_string()),
                ..port("dhcp-port", "tap222", false)
            },
        ],
    };

    let plan = build_snapshot_plan(&current, &snapshot, &local);

    let mut expected = port("vm-port", "tap111", true);
    expected.ifindex = Some(11);
    expected.disposition = Some("eligible_ovs_tap".to_string());
    expected.network_backend = Some("openvswitch".to_string());
    expected.ovs_iface_id = Some("vm-port".to_string());
    assert_eq!(plan.attach, vec![expected]);
    assert!(plan.update.is_empty());
    assert!(plan.detach.is_empty());
    assert_eq!(plan.ignored.len(), 1);
    assert_eq!(plan.ignored[0].port_id, "dhcp-port");
}

#[test]
fn neutron_snapshot_plan_detaches_removed_ports() {
    let mut current = OrderedMap::new();
    current.insert("old-port".to_string(), managed("old-port", "tap-old"));
    current.insert("kept-port".to_string(), managed("kept-port", "tap-kept"));
    let local = inventory(vec![iface(
        "tap-kept",
        "kept-port",
        Some(12),
        Some("br-int"),
    )]);
    let snapshot = NeutronSnapshotRequest {
        schema_version: None,
        generation: 2,
        desired_hash: None,
        host: None,
        ports: vec![port("kept-port", "tap-kept", true)],
    };

    let plan = build_snapshot_plan(&current, &snapshot, &local);

    assert!(plan.attach.is_empty());
    assert_eq!(plan.update.len(), 1);
    assert_eq!(plan.update[0].port_id, "kept-port");
    assert_eq!(plan.update[0].ifname, "tap-kept");
    assert_eq!(plan.update[0].ifindex, Some(12));
    assert_eq!(plan.detach, vec![managed("old-port", "tap-old")]);
    assert!(plan.ignored.is_empty());
}

#[test]
fn neutron_snapshot_plan_reattaches_when_ifname_changes() {
    let mut current = OrderedMap::new();
    current.insert("vm-port".to_string(), managed("vm-port", "tap-old"));
    let local = inventory(vec![iface("tap-new", "vm-port", Some(13), Some("br-int"))]);
    let snapshot = NeutronSnapshotRequest {
        schema_version: None,
        generation: 3,
        desired_hash: None,
        host: None,
        ports: vec![port("vm-port", "tap-new", true)],
    };

    let plan = build_snapshot_plan(&current, &snapshot, &local);

    assert_eq!(plan.detach, vec![managed("vm-port", "tap-old")]);
    assert_eq!(plan.attach.len(), 1);
    assert_eq!(plan.attach[0].ifname, "tap-new");
    assert!(plan.update.is_empty());
    assert!(plan.ignored.is_empty());
}

#[test]
fn neutron_snapshot_plan_reattaches_when_ifindex_changes() {
    let mut current = OrderedMap::new();
    current.insert(
        "vm-port".to_string(),
        managed_with_ifindex("vm-port", "tap-vm", 52),
    );
    let local = inventory(vec![iface("tap-vm", "vm-port", Some(53), Some("br-int"))]);
    let snapshot = NeutronSnapshotRequest {
        schema_version: None,
        generation: 4,
        desired_hash: None,
        host: None,
        ports: vec![port("vm-port", "tap-vm", true)],
    };

    let plan = build_snapshot_plan(&current, &snapshot, &local);

    assert_eq!(
        plan.detach,
        vec![managed_with_ifindex("vm-port", "tap-vm", 52)]
    );
    assert_eq!(plan.attach.len(), 1);
    assert_eq!(plan.attach[0].ifname, "tap-vm");
    assert_eq!(plan.attach[0].ifindex, Some(53));
    assert!(plan.update.is_empty());
    assert!(plan.ignored.is_empty());
}

#[test]
fn neutron_snapshot_plan_detaches_previously_managed_ineligible_port() {
    let mut current = OrderedMap::new();
    current.insert("dhcp-port".to_string(), managed("dhcp-port", "tap-dhcp"));
    let local = inventory(vec![iface(
        "tap-dhcp",
        "dhcp-port",
        Some(14),
        Some("br-int"),
    )]);
    let snapshot = NeutronSnapshotRequest {
        schema_version: None,
        generation: 4,
        desired_hash: None,
        host: None,
        ports: vec![NeutronPortSnapshot {
            disposition: Some("device_owner network:dhcp".to_string()),
            ..port("dhcp-port", "tap-dhcp", false)
        }],
    };

    let plan = build_snapshot_plan(&current, &snapshot, &local);

    assert_eq!(plan.detach, vec![managed("dhcp-port", "tap-dhcp")]);
    assert!(plan.attach.is_empty());
    assert!(plan.update.is_empty());
    assert_eq!(
        plan.ignored[0].reason.as_deref(),
        Some("device_owner network:dhcp")
    );
}

#[test]
fn neutron_snapshot_plan_updates_existing_port_domains_without_reattach() {
    let mut current = OrderedMap::new();
    current.insert(
        "vm-port".to_string(),
        ManagedNeutronPort {
            managed_domains: vec!["acl".to_string()],
            ..managed("vm-port", "tap-vm")
        },
    );
    let local = inventory(vec![iface("tap-vm", "vm-port", Some(15), Some("br-int"))]);
    let snapshot = NeutronSnapshotRequest {
        schema_version: None,
        generation: 5,
        desired_hash: None,
        host: None,
        ports: vec![NeutronPortSnapshot {
            managed_domains: vec!["acl".to_string(), "qos".to_string()],
            ..port("vm-port", "tap-vm", true)
        }],
    };

    let plan = build_snapshot_plan(&current, &snapshot, &local);

    assert!(plan.attach.is_empty());
    assert!(plan.detach.is_empty());
    assert_eq!(plan.update.len(), 1);
    assert_eq!(
        normalize_managed_domains(&plan.update[0].managed_domains),
        vec!["acl".to_string(), "qos".to_string()]
    );
}

#[test]
fn neutron_snapshot_plan_scoped_updates_target_only() {
    let mut current = OrderedMap::new();
    current.insert(
        "target-port".to_string(),
        ManagedNeutronPort {
            managed_domains: vec!["acl".to_string()],
            ..managed("target-port", "tap-target")
        },
    );
    current.insert(
        "other-port".to_string(),
        ManagedNeutronPort {
            managed_domains: vec!["acl".to_string()],
            ..managed("other-port", "tap-other")
        },
    );
    let local = inventory(vec![
        iface("tap-target", "target-port", Some(21), Some("br-int")),
        iface("tap-other", "other-port", Some(22), Some("br-int")),
    ]);
    let snapshot = NeutronSnapshotRequest {
        schema_version: None,
        generation: 8,
        desired_hash: None,
        host: None,
        ports: vec![NeutronPortSnapshot {
            managed_domains: vec!["acl".to_string(), "qos".to_string()],
            ..port("target-port", "tap-target", true)
        }],
    };

    let plan = build_snapshot_plan_for_scope(
        &current,
        &snapshot,
        &local,
        &ApplyScope::SinglePort("target-port".to_string()),
    );

    assert!(plan.attach.is_empty());
    assert!(plan.detach.is_empty());
    assert_eq!(plan.update.len(), 1);
    assert_eq!(plan.update[0].port_id, "target-port");
    assert_eq!(
        normalize_managed_domains(&plan.update[0].managed_domains),
        vec!["acl".to_string(), "qos".to_string()]
    );
    assert!(plan.ignored.is_empty());
}

#[test]
fn neutron_snapshot_plan_scoped_attaches_target_without_detaching_unrelated_ports() {
    let mut current = OrderedMap::new();
    current.insert("other-port".to_string(), managed("other-port", "tap-other"));
    let local = inventory(vec![
        iface("tap-target", "target-port", Some(23), Some("br-int")),
        iface("tap-other", "other-port", Some(24), Some("br-int")),
    ]);
    let snapshot = NeutronSnapshotRequest {
        schema_version: None,
        generation: 9,
        desired_hash: None,
        host: None,
        ports: vec![port("target-port", "tap-target", true)],
    };

    let plan = build_snapshot_plan_for_scope(
        &current,
        &snapshot,
        &local,
        &ApplyScope::SinglePort("target-port".to_string()),
    );

    assert_eq!(plan.attach.len(), 1);
    assert_eq!(plan.attach[0].port_id, "target-port");
    assert_eq!(plan.attach[0].ifindex, Some(23));
    assert!(plan.update.is_empty());
    assert!(plan.detach.is_empty());
    assert!(plan.ignored.is_empty());
}

#[test]
fn neutron_snapshot_plan_scoped_detaches_changed_target_binding_only() {
    let mut current = OrderedMap::new();
    current.insert("target-port".to_string(), managed("target-port", "tap-old"));
    current.insert("other-port".to_string(), managed("other-port", "tap-other"));
    let local = inventory(vec![
        iface("tap-new", "target-port", Some(25), Some("br-int")),
        iface("tap-other", "other-port", Some(26), Some("br-int")),
    ]);
    let snapshot = NeutronSnapshotRequest {
        schema_version: None,
        generation: 10,
        desired_hash: None,
        host: None,
        ports: vec![port("target-port", "tap-new", true)],
    };

    let plan = build_snapshot_plan_for_scope(
        &current,
        &snapshot,
        &local,
        &ApplyScope::SinglePort("target-port".to_string()),
    );

    assert_eq!(plan.detach, vec![managed("target-port", "tap-old")]);
    assert_eq!(plan.attach.len(), 1);
    assert_eq!(plan.attach[0].port_id, "target-port");
    assert_eq!(plan.attach[0].ifname, "tap-new");
    assert!(plan.update.is_empty());
    assert!(plan.ignored.is_empty());
}

#[test]
fn neutron_snapshot_plan_scoped_detaches_ineligible_target_only() {
    let mut current = OrderedMap::new();
    current.insert(
        "target-port".to_string(),
        managed("target-port", "tap-target"),
    );
    current.insert("other-port".to_string(), managed("other-port", "tap-other"));
    let local = inventory(vec![
        iface("tap-target", "target-port", Some(27), Some("br-int")),
        iface("tap-other", "other-port", Some(28), Some("br-int")),
    ]);
    let snapshot = NeutronSnapshotRequest {
        schema_version: None,
        generation: 11,
        desired_hash: None,
        host: None,
        ports: vec![NeutronPortSnapshot {
            disposition: Some("not_applicable_device_owner:network:dhcp".to_string()),
            ..port("target-port", "tap-target", false)
        }],
    };

    let plan = build_snapshot_plan_for_scope(
        &current,
        &snapshot,
        &local,
        &ApplyScope::SinglePort("target-port".to_string()),
    );

    assert_eq!(plan.detach, vec![managed("target-port", "tap-target")]);
    assert!(plan.attach.is_empty());
    assert!(plan.update.is_empty());
    assert_eq!(plan.ignored.len(), 1);
    assert_eq!(plan.ignored[0].port_id, "target-port");
    assert_eq!(
        plan.ignored[0].reason.as_deref(),
        Some("not_applicable_device_owner:network:dhcp")
    );
}

#[test]
fn neutron_snapshot_plan_scoped_ignores_non_target_body_without_mutation() {
    let mut current = OrderedMap::new();
    current.insert(
        "target-port".to_string(),
        managed("target-port", "tap-target"),
    );
    current.insert("other-port".to_string(), managed("other-port", "tap-other"));
    let local = inventory(vec![
        iface("tap-target", "target-port", Some(29), Some("br-int")),
        iface("tap-other", "other-port", Some(30), Some("br-int")),
    ]);
    let snapshot = NeutronSnapshotRequest {
        schema_version: None,
        generation: 12,
        desired_hash: None,
        host: None,
        ports: vec![port("other-port", "tap-other", true)],
    };

    let plan = build_snapshot_plan_for_scope(
        &current,
        &snapshot,
        &local,
        &ApplyScope::SinglePort("target-port".to_string()),
    );

    assert!(plan.attach.is_empty());
    assert!(plan.update.is_empty());
    assert!(plan.detach.is_empty());
    assert!(plan.ignored.is_empty());
}

#[test]
fn neutron_snapshot_transaction_scoped_records_only_target_intent() {
    let mut current = OrderedMap::new();
    current.insert(
        "target-port".to_string(),
        ManagedNeutronPort {
            managed_domains: vec!["acl".to_string()],
            ..managed("target-port", "tap-target")
        },
    );
    current.insert(
        "other-port".to_string(),
        ManagedNeutronPort {
            managed_domains: vec!["acl".to_string()],
            ..managed("other-port", "tap-other")
        },
    );
    let local = inventory(vec![
        iface("tap-target", "target-port", Some(31), Some("br-int")),
        iface("tap-other", "other-port", Some(32), Some("br-int")),
    ]);
    let snapshot = NeutronSnapshotRequest {
        schema_version: None,
        generation: 13,
        desired_hash: Some("scoped-hash".to_string()),
        host: None,
        ports: vec![NeutronPortSnapshot {
            managed_domains: vec!["acl".to_string()],
            ..port("target-port", "tap-target", true)
        }],
    };

    let transaction = build_snapshot_apply_transaction(
        &current,
        &snapshot,
        &local,
        ApplyScope::SinglePort("target-port".to_string()),
    )
    .expect("scoped transaction should be valid");

    assert_eq!(transaction.requested_port_ids, vec!["target-port"]);
    assert_eq!(
        transaction
            .affected_ports
            .iter()
            .map(|port| port.port_id.as_str())
            .collect::<Vec<_>>(),
        vec!["target-port"]
    );
    assert_eq!(
        transaction.affected_domains,
        vec!["acl".to_string(), "attach".to_string()]
    );
    assert_eq!(transaction.plan.update.len(), 1);
    assert!(transaction.plan.attach.is_empty());
    assert!(transaction.plan.detach.is_empty());
}

#[test]
fn neutron_snapshot_transaction_scoped_rejects_zero_ports_before_wal() {
    let current = OrderedMap::new();
    let local = inventory(Vec::new());
    let snapshot = NeutronSnapshotRequest {
        schema_version: None,
        generation: 14,
        desired_hash: None,
        host: None,
        ports: Vec::new(),
    };

    let error = build_snapshot_apply_transaction(
        &current,
        &snapshot,
        &local,
        ApplyScope::SinglePort("target-port".to_string()),
    )
    .expect_err("empty scoped body must be rejected");

    assert_eq!(error, SnapshotScopeError::SinglePortBodyCount { actual: 0 });
    assert_eq!(error.code(), "PORT_SCOPE_MISMATCH");
}

#[test]
fn neutron_snapshot_transaction_scoped_rejects_multiple_ports_before_wal() {
    let current = OrderedMap::new();
    let local = inventory(Vec::new());
    let snapshot = NeutronSnapshotRequest {
        schema_version: None,
        generation: 15,
        desired_hash: None,
        host: None,
        ports: vec![
            port("target-port", "tap-target", true),
            port("other-port", "tap-other", true),
        ],
    };

    let error = build_snapshot_apply_transaction(
        &current,
        &snapshot,
        &local,
        ApplyScope::SinglePort("target-port".to_string()),
    )
    .expect_err("multi-port scoped body must be rejected");

    assert_eq!(error, SnapshotScopeError::SinglePortBodyCount { actual: 2 });
}

#[test]
fn neutron_snapshot_transaction_scoped_rejects_path_body_mismatch_before_wal() {
    let current = OrderedMap::new();
    let local = inventory(Vec::new());
    let snapshot = NeutronSnapshotRequest {
        schema_version: None,
        generation: 16,
        desired_hash: None,
        host: None,
        ports: vec![port("other-port", "tap-other", true)],
    };

    let error = build_snapshot_apply_transaction(
        &current,
        &snapshot,
        &local,
        ApplyScope::SinglePort("target-port".to_string()),
    )
    .expect_err("path/body mismatch must be rejected");

    assert_eq!(
        error,
        SnapshotScopeError::SinglePortBodyMismatch {
            expected: "target-port".to_string(),
            actual: "other-port".to_string(),
        }
    );
}

#[test]
fn neutron_snapshot_transaction_scoped_rejects_scope_widening_before_wal() {
    let snapshot = NeutronSnapshotRequest {
        schema_version: None,
        generation: 17,
        desired_hash: None,
        host: None,
        ports: vec![port("target-port", "tap-target", true)],
    };
    let plan = SnapshotPlan {
        attach: vec![NeutronPortSnapshot {
            ifindex: Some(33),
            managed_domains: vec!["acl".to_string()],
            ..port("other-port", "tap-other", true)
        }],
        update: Vec::new(),
        detach: Vec::new(),
        ignored: Vec::new(),
        inventory_error: None,
    };

    let error = build_snapshot_transaction_from_plan(
        ApplyScope::SinglePort("target-port".to_string()),
        &snapshot,
        plan,
    )
    .expect_err("widened scoped plan must be rejected");

    assert_eq!(
        error,
        SnapshotScopeError::ScopeWidened {
            target: "target-port".to_string(),
            actual: "other-port".to_string(),
        }
    );
}

#[test]
fn neutron_snapshot_transaction_full_host_preserves_existing_wal_intent_shape() {
    let mut current = OrderedMap::new();
    current.insert(
        "removed-port".to_string(),
        ManagedNeutronPort {
            managed_domains: vec!["acl".to_string()],
            ..managed("removed-port", "tap-removed")
        },
    );
    let local = inventory(vec![iface(
        "tap-kept",
        "kept-port",
        Some(34),
        Some("br-int"),
    )]);
    let snapshot = NeutronSnapshotRequest {
        schema_version: None,
        generation: 18,
        desired_hash: None,
        host: None,
        ports: vec![NeutronPortSnapshot {
            managed_domains: vec!["acl".to_string()],
            ..port("kept-port", "tap-kept", true)
        }],
    };

    let transaction =
        build_snapshot_apply_transaction(&current, &snapshot, &local, ApplyScope::FullHost)
            .expect("full-host transaction should be valid");

    assert_eq!(transaction.requested_port_ids, vec!["kept-port"]);
    assert_eq!(
        transaction
            .affected_ports
            .iter()
            .map(|port| port.port_id.as_str())
            .collect::<Vec<_>>(),
        vec!["kept-port", "removed-port"]
    );
    assert_eq!(
        transaction.affected_domains,
        vec!["acl".to_string(), "attach".to_string()]
    );
}

#[test]
fn neutron_snapshot_transaction_scoped_success_preserves_unrelated_statuses() {
    let mut previous_ports = OrderedMap::new();
    previous_ports.insert(
        "target-port".to_string(),
        ManagedNeutronPort {
            managed_domains: vec!["acl".to_string()],
            ..managed("target-port", "tap-target")
        },
    );
    previous_ports.insert(
        "other-port".to_string(),
        ManagedNeutronPort {
            managed_domains: vec!["acl".to_string()],
            ..managed("other-port", "tap-other")
        },
    );
    let mut previous_statuses = OrderedMap::new();
    previous_statuses.insert(
        "target-port".to_string(),
        ready_status("target-port", "tap-target", 20),
    );
    previous_statuses.insert(
        "other-port".to_string(),
        ready_status("other-port", "tap-other", 20),
    );
    let previous = NeutronRuntimeState {
        accepted_generation: 20,
        applied_generation: 20,
        applied_desired_hash: Some("hash-20".to_string()),
        authority_state: "ready".to_string(),
        ports: previous_ports.clone(),
        port_statuses: previous_statuses,
        ..Default::default()
    };
    let mut next_statuses =
        port_status_seed_for_scope(&previous, &ApplyScope::SinglePort("target-port".into()));
    next_statuses.insert(
        "target-port".to_string(),
        port_runtime_status(
            "target-port",
            "tap-target",
            21,
            Some("hash-21".to_string()),
            vec!["acl".to_string()],
            "ready",
            None,
            vec![domain_status_with_action(
                "acl",
                "ready",
                None,
                Some("enforce".to_string()),
            )],
        ),
    );

    let next = build_snapshot_commit_runtime(
        &previous,
        21,
        Some("hash-21".to_string()),
        previous_ports,
        next_statuses,
        false,
    );

    assert_eq!(next.accepted_generation, 21);
    assert_eq!(next.applied_generation, 21);
    assert_eq!(next.pending_generation, None);
    assert_eq!(next.authority_state, "ready");
    assert_eq!(
        next.port_statuses
            .get_text("target-port")
            .map(|status| status.generation),
        Some(21)
    );
    assert_eq!(
        next.port_statuses
            .get_text("other-port")
            .map(|status| (status.generation, status.desired_hash.clone())),
        Some((20, Some("hash-20".to_string())))
    );
}

#[test]
fn neutron_snapshot_transaction_scoped_failure_keeps_pending_generation() {
    let previous = NeutronRuntimeState {
        accepted_generation: 30,
        applied_generation: 30,
        applied_desired_hash: Some("hash-30".to_string()),
        authority_state: "ready".to_string(),
        ..Default::default()
    };

    let next = build_snapshot_commit_runtime(
        &previous,
        31,
        Some("hash-31".to_string()),
        OrderedMap::new(),
        OrderedMap::new(),
        true,
    );

    assert_eq!(next.accepted_generation, 31);
    assert_eq!(next.applied_generation, 30);
    assert_eq!(next.pending_generation, Some(31));
    assert_eq!(next.desired_hash, Some("hash-31".to_string()));
    assert_eq!(next.applied_desired_hash, Some("hash-30".to_string()));
    assert_eq!(next.authority_state, "partial");
}

#[test]
fn neutron_snapshot_preflight_scoped_rejects_mismatch_before_idempotency() {
    let snapshot = NeutronSnapshotRequest {
        schema_version: None,
        generation: 50,
        desired_hash: Some("hash-50".to_string()),
        host: None,
        ports: vec![port("other-port", "tap-other", true)],
    };

    let error = validate_snapshot_preflight(
        &ApplyScope::SinglePort("target-port".to_string()),
        &snapshot,
    )
    .expect_err("scoped path/body mismatch must fail preflight");

    assert_eq!(error.status, ReplyStatus::BadRequest);
    assert_eq!(error.code, "PORT_SCOPE_MISMATCH");
    assert!(error.details.contains("expected target-port"));
}

#[test]
fn neutron_snapshot_preflight_schema_error_wins_before_scope_error() {
    let snapshot = NeutronSnapshotRequest {
        schema_version: Some(NEUTRON_UDS_SCHEMA_VERSION_MAX + 1),
        generation: 51,
        desired_hash: Some("hash-51".to_string()),
        host: None,
        ports: Vec::new(),
    };

    let error = validate_snapshot_preflight(
        &ApplyScope::SinglePort("target-port".to_string()),
        &snapshot,
    )
    .expect_err("unsupported schema should fail first");

    assert_eq!(error.status, ReplyStatus::BadRequest);
    assert_eq!(error.code, "UDS_SCHEMA_MISMATCH");
}

#[test]
fn neutron_snapshot_early_response_scoped_stale_generation() {
    let runtime = NeutronRuntimeState {
        accepted_generation: 60,
        applied_generation: 60,
        applied_desired_hash: Some("hash-60".to_string()),
        authority_state: "ready".to_string(),
        ..Default::default()
    };
    let local = inventory(Vec::new());
    let snapshot = NeutronSnapshotRequest {
        schema_version: None,
        generation: 59,
        desired_hash: Some("hash-59".to_string()),
        host: None,
        ports: vec![port("target-port", "tap-target", true)],
    };

    let response = snapshot_early_response_for_scope(
        &ApplyScope::SinglePort("target-port".to_string()),
        &runtime,
        &snapshot,
        &local,
        &snapshot.desired_hash,
    )
    .expect("stale generation should classify, not error")
    .expect("stale generation should return an early response");

    assert_eq!(response.status, "stale");
    assert_eq!(response.applied_generation, 60);
    assert_eq!(
        response.results[0].reason.as_deref(),
        Some("stale_generation")
    );
}

#[test]
fn neutron_snapshot_early_response_scoped_noop_ignores_unrelated_host_drift() {
    let mut ports = OrderedMap::new();
    ports.insert(
        "target-port".to_string(),
        managed_with_ifindex("target-port", "tap-target", 61),
    );
    ports.insert(
        "other-port".to_string(),
        managed_with_ifindex("other-port", "tap-other", 62),
    );
    let runtime = NeutronRuntimeState {
        accepted_generation: 61,
        applied_generation: 61,
        applied_desired_hash: Some("hash-61".to_string()),
        authority_state: "ready".to_string(),
        ports,
        ..Default::default()
    };
    let local = inventory(vec![iface(
        "tap-target",
        "target-port",
        Some(61),
        Some("br-int"),
    )]);
    let snapshot = NeutronSnapshotRequest {
        schema_version: None,
        generation: 61,
        desired_hash: Some("hash-61".to_string()),
        host: None,
        ports: vec![port("target-port", "tap-target", true)],
    };

    let full_host_response = snapshot_early_response_for_scope(
        &ApplyScope::FullHost,
        &runtime,
        &snapshot,
        &local,
        &snapshot.desired_hash,
    )
    .expect("full-host idempotency should not error");
    let scoped_response = snapshot_early_response_for_scope(
        &ApplyScope::SinglePort("target-port".to_string()),
        &runtime,
        &snapshot,
        &local,
        &snapshot.desired_hash,
    )
    .expect("scoped idempotency should not error")
    .expect("scoped target has no drift");

    assert!(full_host_response.is_none());
    assert_eq!(scoped_response.status, "noop");
    assert_eq!(scoped_response.applied_generation, 61);
}

#[test]
fn neutron_snapshot_same_generation_noop_rejects_ovsdb_unavailable() {
    let previous = committed_runtime(62);
    let snapshot = inventory_snapshot(
        62,
        vec![NeutronPortSnapshot {
            managed_domains: vec!["acl".to_string()],
            ..port("committed-port", "tap-committed", true)
        }],
    );
    let local = unavailable_inventory("connection refused");

    let response = snapshot_early_response_for_scope(
        &ApplyScope::FullHost,
        &previous,
        &snapshot,
        &local,
        &snapshot.desired_hash,
    )
    .expect("inventory failure must enter the transaction path, not return an error");

    assert!(
        response.is_none(),
        "non-authoritative inventory must not produce a same-generation noop"
    );
}

#[test]
fn neutron_snapshot_same_generation_noop_verifies_only_scoped_managed_acl_projection() {
    let mut runtime = NeutronRuntimeState::default();
    let mut target = managed_with_ifindex("target-port", "tap-target", 63);
    target.managed_domains = vec!["acl".to_string()];
    let mut unrelated = managed_with_ifindex("other-port", "tap-other", 64);
    unrelated.managed_domains = vec!["acl".to_string()];
    runtime.ports.insert(target.port_id.clone(), target);
    runtime.ports.insert(unrelated.port_id.clone(), unrelated);

    let mut target_snapshot = port("target-port", "tap-target", true);
    target_snapshot.managed_domains = vec!["acl".to_string()];
    let snapshot = NeutronSnapshotRequest {
        schema_version: None,
        generation: 63,
        desired_hash: Some("hash-63".to_string()),
        host: None,
        ports: vec![target_snapshot],
    };

    assert_eq!(
        managed_acl_projection_verification_targets(
            &ApplyScope::SinglePort("target-port".to_string()),
            &runtime,
            &snapshot,
        ),
        vec!["tap-target".to_string()]
    );

    let mut non_acl_snapshot = snapshot.clone();
    non_acl_snapshot.ports[0].managed_domains = vec!["qos".to_string()];
    assert!(managed_acl_projection_verification_targets(
        &ApplyScope::SinglePort("target-port".to_string()),
        &runtime,
        &non_acl_snapshot,
    )
    .is_empty());
}

#[test]
fn neutron_snapshot_early_response_scoped_hash_conflict() {
    let runtime = NeutronRuntimeState {
        accepted_generation: 70,
        applied_generation: 70,
        applied_desired_hash: Some("hash-old".to_string()),
        authority_state: "ready".to_string(),
        ..Default::default()
    };
    let local = inventory(Vec::new());
    let snapshot = NeutronSnapshotRequest {
        schema_version: None,
        generation: 70,
        desired_hash: Some("hash-new".to_string()),
        host: None,
        ports: vec![port("target-port", "tap-target", true)],
    };

    let error = snapshot_early_response_for_scope(
        &ApplyScope::SinglePort("target-port".to_string()),
        &runtime,
        &snapshot,
        &local,
        &snapshot.desired_hash,
    )
    .expect_err("same generation with a different hash must conflict");

    assert_eq!(error.status, ReplyStatus::Conflict);
    assert_eq!(error.code, "generation_hash_conflict");
}

#[test]
fn affected_domains_include_attach_and_feature_domains() {
    let ports = vec![ManagedNeutronPort {
        port_id: "vm-port".to_string(),
        ifname: "tap-vm".to_string(),
        ifindex: None,
        managed_domains: vec!["acl".to_string(), "qos".to_string(), "mirror".to_string()],
        domain_desired_hashes: OrderedMap::new(),
    }];

    assert_eq!(
        affected_domains_for_ports(&ports),
        vec![
            "acl".to_string(),
            "attach".to_string(),
            "mirror".to_string(),
            "qos".to_string(),
        ]
    );
}

#[test]
fn snapshot_generation_noop_requires_ready_without_pending() {
    let ready = NeutronRuntimeState {
        applied_generation: 42,
        pending_generation: None,
        authority_state: "ready".to_string(),
        ..Default::default()
    };
    assert!(snapshot_generation_fully_applied(&ready, 42));

    let partial = NeutronRuntimeState {
        accepted_generation: 42,
        applied_generation: 42,
        pending_generation: Some(42),
        authority_state: "partial".to_string(),
        ..Default::default()
    };
    assert!(!snapshot_generation_fully_applied(&partial, 42));

    let blocked = NeutronRuntimeState {
        accepted_generation: 42,
        applied_generation: 42,
        pending_generation: None,
        authority_state: "blocked_recovery_required".to_string(),
        ..Default::default()
    };
    assert!(!snapshot_generation_fully_applied(&blocked, 42));
}

#[test]
fn snapshot_schema_supports_absent_or_in_range_only() {
    assert!(snapshot_schema_supported(None));
    assert!(snapshot_schema_supported(Some(
        NEUTRON_UDS_SCHEMA_VERSION_MIN
    )));
    assert!(snapshot_schema_supported(Some(
        NEUTRON_UDS_SCHEMA_VERSION_MAX
    )));
    assert!(!snapshot_schema_supported(Some(
        NEUTRON_UDS_SCHEMA_VERSION_MAX + 1
    )));
}

#[test]
fn same_generation_noop_detects_tap_ifindex_drift() {
    let mut current = OrderedMap::new();
    current.insert(
        "vm-port".to_string(),
        ManagedNeutronPort {
            port_id: "vm-port".to_string(),
            ifname: "tap-vm".to_string(),
            ifindex: Some(50),
            managed_domains: vec!["acl".to_string()],
            domain_desired_hashes: OrderedMap::new(),
        },
    );
    let local = inventory(vec![iface("tap-vm", "vm-port", Some(51), Some("br-int"))]);
    let snapshot = NeutronSnapshotRequest {
        schema_version: None,
        generation: 42,
        desired_hash: Some("hash-42".to_string()),
        host: None,
        ports: vec![NeutronPortSnapshot {
            managed_domains: vec!["acl".to_string()],
            ..port("vm-port", "", true)
        }],
    };

    assert!(snapshot_has_runtime_drift(&current, &snapshot, &local));

    let mut moved = current.get_text("vm-port").unwrap().clone();
    moved.ifindex = Some(51);
    current.insert("vm-port".to_string(), moved.clone());
    assert!(snapshot_has_runtime_drift(&current, &snapshot, &local));
    moved.domain_desired_hashes = domain_desired_hashes_from_snapshot(&snapshot.ports[0]);
    current.insert("vm-port".to_string(), moved);
    assert!(!snapshot_has_runtime_drift(&current, &snapshot, &local));
}

#[test]
fn pending_intent_ports_fall_back_to_committed_runtime() {
    let mut intent = PendingNeutronIntent::default();
    intent.kind = "snapshot".to_string();
    intent.generation = 17;
    intent.desired_hash = Some("hash-17".to_string());
    intent.port_ids = vec!["vm-port".to_string()];
    intent.affected_domains = vec!["acl".to_string()];
    let mut current = OrderedMap::new();
    current.insert(
        "vm-port".to_string(),
        ManagedNeutronPort {
            port_id: "vm-port".to_string(),
            ifname: "tap-vm".to_string(),
            ifindex: Some(17),
            managed_domains: vec!["acl".to_string()],
            domain_desired_hashes: OrderedMap::new(),
        },
    );

    let ports = affected_ports_for_intent(&intent, &current);

    assert_eq!(1, ports.len());
    assert_eq!("tap-vm", ports[0].ifname);
    assert_eq!(Some(17), ports[0].ifindex);
}

#[test]
fn neutron_snapshot_plan_resolves_candidate_by_ovs_iface_id() {
    let current = OrderedMap::new();
    let local = inventory(vec![iface(
        "tape607e86b-9e",
        "e607e86b-9e5f-4c63-a5df-3dc8986a1b0f",
        Some(27),
        Some("br-int"),
    )]);
    let mut candidate = port("e607e86b-9e5f-4c63-a5df-3dc8986a1b0f", "", true);
    candidate.disposition = Some("pending_local_validation".to_string());
    candidate.managed_domains = vec!["acl".to_string()];
    let snapshot = NeutronSnapshotRequest {
        schema_version: None,
        generation: 6,
        desired_hash: None,
        host: None,
        ports: vec![candidate],
    };

    let plan = build_snapshot_plan(&current, &snapshot, &local);

    assert_eq!(plan.attach.len(), 1);
    assert_eq!(plan.attach[0].ifname, "tape607e86b-9e");
    assert_eq!(plan.attach[0].ifindex, Some(27));
    assert_eq!(
        plan.attach[0].disposition.as_deref(),
        Some("eligible_ovs_tap")
    );
    assert!(plan.ignored.is_empty());
}

#[test]
fn neutron_snapshot_plan_does_not_detach_when_ovsdb_unavailable() {
    let mut current = OrderedMap::new();
    current.insert("vm-port".to_string(), managed("vm-port", "tap-vm"));
    let local = LocalInterfaceInventory {
        ovs_bridge: "br-int".to_string(),
        ovs_error: Some("permission denied".to_string()),
        by_iface_id: OrderedMap::new(),
        by_name: OrderedMap::new(),
        ifindexes: OrderedMap::new(),
    };
    let snapshot = NeutronSnapshotRequest {
        schema_version: None,
        generation: 7,
        desired_hash: None,
        host: None,
        ports: vec![port("vm-port", "", true)],
    };

    let plan = build_snapshot_plan(&current, &snapshot, &local);

    assert!(plan.attach.is_empty());
    assert!(plan.update.is_empty());
    assert!(plan.detach.is_empty());
    assert_eq!(
        plan.inventory_error.as_deref(),
        Some("ovsdb_unavailable:permission denied")
    );
    assert_eq!(plan.ignored.len(), 1);
    assert_eq!(
        plan.ignored[0].reason.as_deref(),
        Some("ovsdb_unavailable:permission denied")
    );
}

#[test]
fn neutron_snapshot_plan_defers_committed_port_until_ifindex_is_ready() {
    let mut current = OrderedMap::new();
    current.insert(
        "vm-port".to_string(),
        ManagedNeutronPort {
            ifindex: None,
            managed_domains: vec!["acl".to_string()],
            ..managed("vm-port", "tap-vm")
        },
    );
    let local = inventory(vec![iface(
        "tap-vm",
        "vm-port",
        None,
        Some("br-int"),
    )]);
    let snapshot = inventory_snapshot(
        8,
        vec![NeutronPortSnapshot {
            managed_domains: vec!["acl".to_string()],
            ..port("vm-port", "tap-vm", true)
        }],
    );

    let plan = build_snapshot_plan(&current, &snapshot, &local);

    assert!(plan.attach.is_empty());
    assert!(plan.update.is_empty());
    assert!(plan.detach.is_empty());
    assert_eq!(
        plan.inventory_error.as_deref(),
        Some("local_port_not_ready:vm-port:ifindex_not_ready")
    );
    assert_eq!(plan.ignored.len(), 1);
    assert_eq!(plan.ignored[0].port_id, "vm-port");
    assert_eq!(
        plan.ignored[0].reason.as_deref(),
        Some("ifindex_not_ready")
    );
}

#[test]
fn acl_hashes_name_their_schema() {
    let with_acl = NeutronPortSnapshot {
        managed_domains: vec!["acl".to_string()],
        acl_payload: EncodedPayload::Json(b"null".to_vec()),
        ..port("vm-port", "", true)
    };
    assert_eq!(
        domain_desired_hashes_from_snapshot(&with_acl).get_text("acl"),
        Some(&"sha256:d80cf67b197d6753d0f8a713535534744b7a48d1c9015f3b912ddd05a07544af".to_string())
    );
    let without_acl = NeutronPortSnapshot {
        managed_domains: vec!["attach".to_string()],
        ..with_acl.clone()
    };
    assert!(domain_desired_hashes_from_snapshot(&without_acl).is_empty());
    let unencodable = NeutronPortSnapshot {
        acl_payload: EncodedPayload::Unencodable("depth".to_string()),
        ..with_acl.clone()
    };
    assert_ne!(
        domain_desired_hashes_from_snapshot(&unencodable).get_text("acl"),
        domain_desired_hashes_from_snapshot(&with_acl).get_text("acl")
    );
}

#[test]
fn other_ports_leave_the_plan_of_one_port_alone() {
    let local = inventory(vec![
        iface("tap-target", "target-port", Some(23), Some("br-int")),
        iface("tap-other", "other-port", Some(24), Some("br-int")),
    ]);
    let scope = ApplyScope::SinglePort("target-port".to_string());
    let mut current = OrderedMap::new();
    current.insert(
        "target-port".to_string(),
        managed_with_ifindex("target-port", "tap-old", 22),
    );
    let alone = inventory_snapshot(5, vec![port("target-port", "tap-target", true)]);
    let plan = build_snapshot_plan_for_scope(&current, &alone, &local, &scope);
    assert_eq!(plan.attach.len(), 1);
    assert_eq!(plan.attach[0].port_id, "target-port");
    assert_eq!(plan.detach.len(), 1);
    assert_eq!(plan.detach[0].ifname, "tap-old");

    let mut crowded = current.clone();
    crowded.insert("other-port".to_string(), managed("other-port", "tap-other"));
    let among = inventory_snapshot(
        5,
        vec![
            port("other-port", "tap-other", true),
            port("target-port", "tap-target", true),
            port("missing-port", "tap-missing", true),
        ],
    );
    assert_eq!(
        build_snapshot_plan_for_scope(&crowded, &among, &local, &scope),
        plan
    );

    let without = inventory_snapshot(5, vec![port("other-port", "tap-other", true)]);
    let nothing = build_snapshot_plan_for_scope(&crowded, &without, &local, &scope);
    assert!(nothing.attach.is_empty() && nothing.update.is_empty());
    assert!(nothing.detach.is_empty() && nothing.ignored.is_empty());
}
