use neutron_agent::acl_gate::{
    execute_managed_acl_post_replace_completion, execute_neutron_acl_detach_cleanup,
    plan_neutron_acl, purge_neutron_acl_transactionally, reconcile_neutron_acl,
    AclCompletionHistory, AclCompletionStep, AclDetachCleanupStep, AclPurgeStep,
    AclReconcileHistory, AclReconcileStep, AclReplaceReport, NeutronAclReconcileError,
};
use neutron_agent::acl_plan::AclValidationCache;
use neutron_agent::apply::{ApplyEvent, ApplyStep, SnapshotApply, SnapshotRuntimeApplyOutcome};
use neutron_agent::domains::managed_port_from_snapshot;
use neutron_agent::health::runtime_rebuild_port_status;
use neutron_agent::host::HostOutcome;
use neutron_agent::inventory::{LocalInterfaceInventory, LocalOvsInterface};
use neutron_agent::model::{
    ManagedNeutronPort, NeutronAclRuleSnapshot, NeutronAclSnapshot, NeutronPortApplyResult,
    NeutronPortSnapshot, NeutronPortStatus, NeutronRuntimeState, NeutronSnapshotRequest,
};
use neutron_agent::ordered::{OrderedMap, Value};
use neutron_agent::payload::EncodedPayload;
use neutron_agent::plan::{build_snapshot_plan, SnapshotApplyTransaction, SnapshotPlan};
use neutron_agent::reconcile::{reconcile_neutron_domains, DomainReconcileStep};
use neutron_agent::scope::ApplyScope;
use neutron_agent::status::{
    domain_status_with_action, port_runtime_status, NeutronAclReconcileOutcome,
};
use neutron_agent::transaction::{
    build_snapshot_apply_transaction, build_snapshot_commit_runtime,
    build_snapshot_transaction_from_plan, ManagedProjectionHealth,
};

fn encoded(acl: &Option<NeutronAclSnapshot>) -> EncodedPayload {
    EncodedPayload::Json(format!("{:?}", acl).into_bytes())
}

fn map_of<T: Value, const N: usize>(entries: [(String, T); N]) -> OrderedMap<String, T> {
    let mut map = OrderedMap::new();
    for (key, value) in entries {
        map.insert(key, value);
    }
    map
}

fn managed(port_id: &str, ifname: &str) -> ManagedNeutronPort {
    ManagedNeutronPort {
        port_id: port_id.to_string(),
        ifname: ifname.to_string(),
        ifindex: None,
        managed_domains: Vec::new(),
        domain_desired_hashes: OrderedMap::new(),
    }
}

fn port(port_id: &str, ifname: &str, eligible: bool) -> NeutronPortSnapshot {
    NeutronPortSnapshot {
        port_id: port_id.to_string(),
        ifname: ifname.to_string(),
        ifindex: None,
        eligible,
        disposition: None,
        device_owner: None,
        vif_type: None,
        vnic_type: None,
        network_backend: None,
        ovs_iface_id: None,
        managed_domains: Vec::new(),
        acl: None,
        acl_payload: encoded(&None),
    }
}

fn ready_status(port_id: &str, ifname: &str, generation: u64) -> NeutronPortStatus {
    port_runtime_status(
        port_id,
        ifname,
        generation,
        Some(format!("hash-{}", generation)),
        vec!["acl".to_string()],
        "ready",
        None,
        vec![domain_status_with_action(
            "acl",
            "ready",
            None,
            Some("enforce".to_string()),
        )],
    )
}

fn iface(
    name: &str,
    port_id: &str,
    ifindex: Option<u32>,
    bridge: Option<&str>,
) -> LocalOvsInterface {
    LocalOvsInterface {
        name: name.to_string(),
        ifindex,
        bridge: bridge.map(ToOwned::to_owned),
        iface_id: Some(port_id.to_string()),
    }
}

fn inventory(interfaces: Vec<LocalOvsInterface>) -> LocalInterfaceInventory {
    let mut by_iface_id = OrderedMap::new();
    let mut by_name = OrderedMap::new();
    for interface in interfaces {
        if let Some(iface_id) = interface.iface_id.clone() {
            by_iface_id.insert(iface_id, interface.clone());
        }
        by_name.insert(interface.name.clone(), interface);
    }
    LocalInterfaceInventory {
        ovs_bridge: "br-int".to_string(),
        ovs_error: None,
        by_iface_id,
        by_name,
        ifindexes: OrderedMap::new(),
    }
}

fn unavailable_inventory(details: &str) -> LocalInterfaceInventory {
    LocalInterfaceInventory {
        ovs_bridge: "br-int".to_string(),
        ovs_error: Some(details.to_string()),
        by_iface_id: OrderedMap::new(),
        by_name: OrderedMap::new(),
        ifindexes: OrderedMap::new(),
    }
}

fn committed_runtime(generation: u64) -> NeutronRuntimeState {
    let port = ManagedNeutronPort {
        managed_domains: vec!["acl".to_string()],
        ..managed("committed-port", "tap-committed")
    };
    let mut ports = OrderedMap::new();
    ports.insert(port.port_id.clone(), port);
    let mut port_statuses = OrderedMap::new();
    port_statuses.insert(
        "committed-port".to_string(),
        ready_status("committed-port", "tap-committed", generation),
    );
    NeutronRuntimeState {
        accepted_generation: generation,
        applied_generation: generation,
        desired_hash: Some(format!("hash-{}", generation)),
        applied_desired_hash: Some(format!("hash-{}", generation)),
        authority_state: "ready".to_string(),
        ports,
        port_statuses,
        wal_status: "commit_written".to_string(),
        ..NeutronRuntimeState::default()
    }
}

fn inventory_snapshot(
    generation: u64,
    ports: Vec<NeutronPortSnapshot>,
) -> NeutronSnapshotRequest {
    NeutronSnapshotRequest {
        schema_version: None,
        generation,
        desired_hash: Some(format!("hash-{}", generation)),
        host: None,
        ports,
    }
}

#[test]
fn neutron_snapshot_transaction_runtime_scoped_error_uses_shared_apply_body() {
    let mut current_ports = OrderedMap::new();
    current_ports.insert(
        "other-port".to_string(),
        ManagedNeutronPort {
            managed_domains: vec!["acl".to_string()],
            ..managed("other-port", "tap-other")
        },
    );
    let mut previous_statuses = OrderedMap::new();
    previous_statuses.insert(
        "other-port".to_string(),
        ready_status("other-port", "tap-other", 40),
    );
    let previous = NeutronRuntimeState {
        accepted_generation: 40,
        applied_generation: 40,
        applied_desired_hash: Some("hash-40".to_string()),
        authority_state: "ready".to_string(),
        ports: current_ports.clone(),
        port_statuses: previous_statuses,
        ..Default::default()
    };
    let snapshot = NeutronSnapshotRequest {
        schema_version: None,
        generation: 41,
        desired_hash: Some("hash-41".to_string()),
        host: None,
        ports: vec![port("target-port", "tap-target", true)],
    };
    let plan = SnapshotPlan {
        attach: Vec::new(),
        update: Vec::new(),
        detach: Vec::new(),
        ignored: vec![NeutronPortApplyResult {
            port_id: "target-port".to_string(),
            ifname: "tap-target".to_string(),
            action: "update".to_string(),
            status: "error".to_string(),
            reason: Some("tap_missing".to_string()),
        }],
        inventory_error: None,
    };
    let transaction = build_snapshot_transaction_from_plan(
        ApplyScope::SinglePort("target-port".to_string()),
        &snapshot,
        plan,
    )
    .expect("scoped transaction should stay within target port");

    let outcome = apply_to_idle_host(
        41,
        Some("hash-41".to_string()),
        current_ports,
        previous,
        transaction,
    );

    assert!(outcome.has_error);
    assert_eq!(outcome.previous_applied_generation, 40);
    assert_eq!(outcome.results.len(), 1);
    assert_eq!(outcome.results[0].port_id, "target-port");
    assert_eq!(outcome.next_runtime.accepted_generation, 41);
    assert_eq!(outcome.next_runtime.applied_generation, 40);
    assert_eq!(outcome.next_runtime.pending_generation, Some(41));
    assert_eq!(outcome.next_runtime.authority_state, "partial");
    assert_eq!(
        outcome
            .next_runtime
            .port_statuses
            .get_text("other-port")
            .map(|status| (status.generation, status.desired_hash.clone())),
        Some((40, Some("hash-40".to_string())))
    );
}

#[test]
fn neutron_snapshot_transaction_ovsdb_unavailable_preserves_committed_runtime() {
    let previous = committed_runtime(80);
    let current_ports = previous.ports.clone();
    let snapshot = inventory_snapshot(
        81,
        vec![NeutronPortSnapshot {
            managed_domains: vec!["acl".to_string()],
            ..port("committed-port", "tap-committed", true)
        }],
    );
    let local = unavailable_inventory("permission denied");
    let transaction = build_snapshot_apply_transaction(
        &current_ports,
        &snapshot,
        &local,
        ApplyScope::FullHost,
    )
    .expect("inventory failure remains a valid transaction plan");

    let outcome = apply_to_idle_host(
        snapshot.generation,
        snapshot.desired_hash.clone(),
        current_ports,
        previous.clone(),
        transaction,
    );

    assert!(
        outcome.has_error,
        "inventory loss must fail the transaction"
    );
    assert_eq!(outcome.previous_applied_generation, 80);
    assert!(outcome.results.iter().any(|result| {
        result.port_id == "snapshot"
            && result.ifname.is_empty()
            && result.action == "ignore"
            && result.status == "error"
            && result.reason.as_deref() == Some("ovsdb_unavailable:permission denied")
    }));
    assert!(outcome.results.iter().any(|result| {
        result.port_id == "committed-port"
            && result.status == "ignored"
            && result.reason.as_deref() == Some("ovsdb_unavailable:permission denied")
    }));
    assert_eq!(outcome.next_runtime.accepted_generation, 81);
    assert_eq!(
        outcome.next_runtime.desired_hash.as_deref(),
        Some("hash-81")
    );
    assert_eq!(outcome.next_runtime.pending_generation, Some(81));
    assert_eq!(
        outcome.next_runtime.authority_state,
        "blocked_recovery_required"
    );
    assert_eq!(outcome.next_runtime.wal_status, "inventory_unavailable");
    assert_eq!(outcome.next_runtime.applied_generation, 80);
    assert_eq!(
        outcome.next_runtime.applied_desired_hash,
        previous.applied_desired_hash
    );
    assert_eq!(outcome.next_runtime.ports, previous.ports);
    assert_eq!(outcome.next_runtime.port_statuses, previous.port_statuses);
}

#[test]
fn neutron_snapshot_transaction_empty_snapshot_ovsdb_unavailable_preserves_committed_runtime() {
    let previous = committed_runtime(82);
    let current_ports = previous.ports.clone();
    let snapshot = inventory_snapshot(83, Vec::new());
    let local = unavailable_inventory("database offline");
    let transaction = build_snapshot_apply_transaction(
        &current_ports,
        &snapshot,
        &local,
        ApplyScope::FullHost,
    )
    .expect("empty snapshot still carries transaction-level inventory authority");

    let outcome = apply_to_idle_host(
        snapshot.generation,
        snapshot.desired_hash.clone(),
        current_ports,
        previous.clone(),
        transaction,
    );

    assert!(
        outcome.has_error,
        "empty bodies must not hide inventory loss"
    );
    assert_eq!(outcome.results.len(), 1);
    assert_eq!(outcome.results[0].port_id, "snapshot");
    assert_eq!(outcome.results[0].status, "error");
    assert_eq!(
        outcome.results[0].reason.as_deref(),
        Some("ovsdb_unavailable:database offline")
    );
    assert_eq!(outcome.next_runtime.accepted_generation, 83);
    assert_eq!(
        outcome.next_runtime.desired_hash.as_deref(),
        Some("hash-83")
    );
    assert_eq!(outcome.next_runtime.pending_generation, Some(83));
    assert_eq!(
        outcome.next_runtime.authority_state,
        "blocked_recovery_required"
    );
    assert_eq!(outcome.next_runtime.wal_status, "inventory_unavailable");
    assert_eq!(outcome.next_runtime.applied_generation, 82);
    assert_eq!(
        outcome.next_runtime.applied_desired_hash,
        previous.applied_desired_hash
    );
    assert_eq!(outcome.next_runtime.ports, previous.ports);
    assert_eq!(outcome.next_runtime.port_statuses, previous.port_statuses);
}

#[test]
fn neutron_snapshot_transaction_authoritative_ignored_ports_commit() {
    let mut dhcp = port("dhcp-port", "tap-dhcp", true);
    dhcp.device_owner = Some("network:dhcp".to_string());
    let mut direct = port("direct-port", "tap-direct", true);
    direct.device_owner = Some("compute:nova".to_string());
    direct.vif_type = Some("ovs".to_string());
    direct.vnic_type = Some("direct".to_string());
    let mut router = port("router-port", "tap-router", true);
    router.device_owner = Some("network:router_interface".to_string());
    let snapshot = inventory_snapshot(84, vec![dhcp, direct, router]);
    let local = inventory(Vec::new());
    let transaction = build_snapshot_apply_transaction(
        &OrderedMap::new(),
        &snapshot,
        &local,
        ApplyScope::FullHost,
    )
    .expect("authoritative ignored ports remain a valid transaction");

    let outcome = apply_to_idle_host(
        snapshot.generation,
        snapshot.desired_hash.clone(),
        OrderedMap::new(),
        NeutronRuntimeState::default(),
        transaction,
    );

    assert!(!outcome.has_error);
    assert_eq!(outcome.results.len(), 3);
    assert!(outcome
        .results
        .iter()
        .all(|result| result.action == "ignore" && result.status == "ignored"));
    assert!(outcome.results.iter().any(|result| {
        result.port_id == "dhcp-port"
            && result.reason.as_deref() == Some("not_applicable_device_owner:network:dhcp")
    }));
    assert!(outcome.results.iter().any(|result| {
        result.port_id == "direct-port"
            && result.reason.as_deref() == Some("unsupported_vnic_type:direct")
    }));
    assert!(outcome.results.iter().any(|result| {
        result.port_id == "router-port"
            && result.reason.as_deref()
                == Some("not_applicable_device_owner:network:router_interface")
    }));
    assert_eq!(outcome.next_runtime.accepted_generation, 84);
    assert_eq!(outcome.next_runtime.applied_generation, 84);
    assert_eq!(outcome.next_runtime.pending_generation, None);
    assert_eq!(outcome.next_runtime.authority_state, "ready");
    assert!(outcome.next_runtime.ports.is_empty());
    assert!(outcome.next_runtime.port_statuses.is_empty());
}

#[test]
fn neutron_snapshot_authoritative_success_clears_inventory_recovery_cause() {
    let previous = committed_runtime(110);
    let outage = inventory_snapshot(111, Vec::new());
    let outage_transaction = build_snapshot_apply_transaction(
        &previous.ports,
        &outage,
        &unavailable_inventory("connection reset"),
        ApplyScope::FullHost,
    )
    .expect("inventory outage should remain a valid transaction");
    let outage_outcome = apply_to_idle_host(
        outage.generation,
        outage.desired_hash.clone(),
        previous.ports.clone(),
        previous.clone(),
        outage_transaction,
    );

    let successful = build_snapshot_commit_runtime(
        &outage_outcome.next_runtime,
        112,
        Some("hash-112".to_string()),
        previous.ports.clone(),
        previous.port_statuses.clone(),
        false,
    );
    assert_eq!(successful.accepted_generation, 112);
    assert_eq!(successful.applied_generation, 112);
    assert_eq!(successful.pending_generation, None);
    assert_eq!(successful.authority_state, "ready");
    assert_eq!(
        successful.to_wal_state().recovery_cause, None,
        "a later authoritative success must omit the cleared inventory cause"
    );
}

#[test]
fn neutron_snapshot_ifindex_not_ready_preserves_committed_runtime_for_retry() {
    let mut previous = committed_runtime(85);
    let committed = ManagedNeutronPort {
        port_id: "vm-port".to_string(),
        ifname: "tap-vm".to_string(),
        ifindex: None,
        managed_domains: vec!["acl".to_string()],
        domain_desired_hashes: OrderedMap::new(),
    };
    previous.ports = map_of([("vm-port".to_string(), committed.clone())]);
    previous.port_statuses = map_of([(
        "vm-port".to_string(),
        runtime_rebuild_port_status(
            &committed,
            previous.applied_generation,
            previous.applied_desired_hash.clone(),
        ),
    )]);
    previous.authority_state = "runtime_reconcile_requires_full_resync".to_string();
    let snapshot = inventory_snapshot(
        86,
        vec![NeutronPortSnapshot {
            managed_domains: vec!["acl".to_string()],
            ..port("vm-port", "tap-vm", true)
        }],
    );
    let local = inventory(vec![iface(
        "tap-vm",
        "vm-port",
        None,
        Some("br-int"),
    )]);
    let transaction = build_snapshot_apply_transaction(
        &previous.ports,
        &snapshot,
        &local,
        ApplyScope::FullHost,
    )
    .expect("transient local inventory remains a retriable transaction");

    let outcome = apply_to_idle_host(
        snapshot.generation,
        snapshot.desired_hash.clone(),
        previous.ports.clone(),
        previous.clone(),
        transaction,
    );

    assert!(outcome.has_error);
    assert_eq!(outcome.next_runtime.applied_generation, 85);
    assert_eq!(outcome.next_runtime.ports, previous.ports);
    assert_eq!(outcome.next_runtime.port_statuses, previous.port_statuses);
    assert_eq!(
        outcome.next_runtime.recovery_cause.as_deref(),
        Some("inventory_unavailable")
    );
    assert_eq!(
        outcome.next_runtime.authority_state,
        "blocked_recovery_required"
    );
    assert!(outcome.results.iter().any(|result| {
        result.port_id == "snapshot"
            && result.status == "error"
            && result.reason.as_deref()
                == Some("local_port_not_ready:vm-port:ifindex_not_ready")
    }));
    assert!(!outcome.results.iter().any(|result| result.action == "detach"));
}

#[derive(Default)]
struct Script {
    attach_error: Option<&'static str>,
    fault: Option<&'static str>,
    purge_error: Option<&'static str>,
    detach_error: Option<&'static str>,
    health: Option<ManagedProjectionHealth>,
    reuse: bool,
    reconcile_error: Option<&'static str>,
    confirm_refused: bool,
}

fn outcome(error: Option<&'static str>) -> HostOutcome {
    match error {
        None => HostOutcome::Done,
        Some(error) => HostOutcome::Failed(error.to_string()),
    }
}

fn run_apply(apply: &mut SnapshotApply, script: &Script) -> Vec<String> {
    let mut trace = Vec::new();
    loop {
        match apply.next() {
            ApplyStep::Purge { ifname, .. } => {
                trace.push(format!("purge {ifname}"));
                apply.observe(ApplyEvent::Purged(outcome(script.purge_error)));
            }
            ApplyStep::Detach { ifname } => {
                trace.push(format!("detach {ifname}"));
                apply.observe(ApplyEvent::Detached(outcome(script.detach_error)));
            }
            ApplyStep::Attach { ifname, manages_acl } => {
                trace.push(format!("attach {ifname} {manages_acl}"));
                apply.observe(ApplyEvent::Attached(outcome(script.attach_error)));
            }
            ApplyStep::CheckFault(_) => {
                apply.observe(ApplyEvent::FaultChecked(outcome(script.fault)));
            }
            ApplyStep::ReadHealth { .. } => {
                apply.observe(ApplyEvent::HealthRead(script.health));
            }
            ApplyStep::Reuse(mark) => {
                trace.push(format!("reuse {}", mark.ifname));
                apply.observe(ApplyEvent::Reused(script.reuse));
            }
            ApplyStep::Reconcile { port, full_resync } => {
                trace.push(format!("reconcile {} {full_resync}", port.ifname));
                let acl: Option<Result<NeutronAclReconcileOutcome, NeutronAclReconcileError>> =
                    Some(match script.reconcile_error {
                        None => Ok(NeutronAclReconcileOutcome {
                            force_bypass_reason: None,
                        }),
                        Some(error) => Err(NeutronAclReconcileError::bypass(error)),
                    });
                let result = match reconcile_neutron_domains(&port, &acl) {
                    DomainReconcileStep::Finish(result) => result,
                    DomainReconcileStep::ReconcileAcl => panic!("the outcome is known"),
                };
                apply.observe(ApplyEvent::Reconciled(result));
            }
            ApplyStep::Confirm(mark) => {
                trace.push(format!("confirm {}", mark.ifname));
                apply.observe(ApplyEvent::Confirmed(!script.confirm_refused));
            }
            ApplyStep::Settle(settled) => {
                trace.push(format!("settle {} {}", settled.result.action, settled.result.status));
                assert!(apply.settle());
            }
            ApplyStep::Finish => return trace,
        }
    }
}

fn apply_to_idle_host(
    generation: u64,
    desired_hash: Option<String>,
    current_ports: OrderedMap<String, ManagedNeutronPort>,
    previous: NeutronRuntimeState,
    transaction: SnapshotApplyTransaction,
) -> SnapshotRuntimeApplyOutcome {
    let mut apply =
        SnapshotApply::start(generation, desired_hash, current_ports, previous, &transaction);
    let trace = run_apply(&mut apply, &Script::default());
    assert!(trace.is_empty(), "the host must not be touched: {trace:?}");
    apply.finish()
}

fn attach_snapshot() -> (NeutronSnapshotRequest, SnapshotApplyTransaction) {
    let snapshot = inventory_snapshot(
        11,
        vec![NeutronPortSnapshot {
            managed_domains: vec!["acl".to_string()],
            acl: Some(ready_acl()),
            ..port("vm-port", "tap-vm", true)
        }],
    );
    let local = inventory(vec![iface("tap-vm", "vm-port", Some(7), Some("br-int"))]);
    let transaction = build_snapshot_apply_transaction(
        &OrderedMap::new(),
        &snapshot,
        &local,
        ApplyScope::FullHost,
    )
    .unwrap();
    (snapshot, transaction)
}

fn ready_acl() -> NeutronAclSnapshot {
    NeutronAclSnapshot {
        enabled: true,
        status: "ready".to_string(),
        reason: "ready".to_string(),
        effective_action: "enforce".to_string(),
        policy_id: Some("acl-policy".to_string()),
        policy_name: None,
        binding_id: None,
        source: Some("port".to_string()),
        default_action: "allow".to_string(),
        stateful: true,
        revision: 1,
        rules: Vec::new(),
        content_payload: EncodedPayload::Json(Vec::new()),
    }
}

fn start(script: &Script) -> (Vec<String>, SnapshotRuntimeApplyOutcome) {
    let (snapshot, transaction) = attach_snapshot();
    let mut apply = SnapshotApply::start(
        snapshot.generation,
        snapshot.desired_hash,
        OrderedMap::new(),
        NeutronRuntimeState::default(),
        &transaction,
    );
    let trace = run_apply(&mut apply, script);
    (trace, apply.finish())
}

#[test]
fn attached_ports_are_reconciled_and_confirmed() {
    let (trace, outcome) = start(&Script::default());

    assert_eq!(
        trace,
        vec![
            "attach tap-vm true",
            "reconcile tap-vm true",
            "confirm tap-vm",
            "settle attach ok",
        ]
    );
    assert!(!outcome.has_error);
    assert_eq!(outcome.next_runtime.applied_generation, 11);
    assert_eq!(outcome.next_runtime.authority_state, "ready");
    let managed = outcome.next_runtime.ports.get_text("vm-port").unwrap();
    assert_eq!(managed.ifindex, Some(7));
    let status = outcome.next_runtime.port_statuses.get_text("vm-port").unwrap();
    assert_eq!(status.status, "ready");
    assert_eq!(status.generation, 11);
}

#[test]
fn failed_attaches_keep_the_snapshot_pending() {
    let (trace, outcome) = start(&Script {
        attach_error: Some("no such device"),
        ..Script::default()
    });

    assert_eq!(trace, vec!["attach tap-vm true", "settle attach error"]);
    assert!(outcome.has_error);
    assert_eq!(outcome.next_runtime.applied_generation, 0);
    assert_eq!(outcome.next_runtime.pending_generation, Some(11));
    assert_eq!(outcome.next_runtime.authority_state, "partial");
    assert!(outcome.next_runtime.ports.is_empty());
    assert_eq!(outcome.results[0].reason.as_deref(), Some("no such device"));
}

#[test]
fn failed_reconciles_are_not_recorded() {
    let (_, outcome) = start(&Script {
        reconcile_error: Some("map unavailable"),
        ..Script::default()
    });

    assert!(outcome.has_error);
    assert!(outcome.next_runtime.ports.is_empty());
    let status = outcome.next_runtime.port_statuses.get_text("vm-port").unwrap();
    assert_ne!(status.status, "ready");
}

#[test]
fn refused_claims_are_not_recorded() {
    let (trace, outcome) = start(&Script {
        confirm_refused: true,
        ..Script::default()
    });

    assert_eq!(trace.last().map(String::as_str), Some("settle attach error"));
    assert!(outcome.has_error);
    assert!(outcome.next_runtime.ports.is_empty());
}

fn start_detach(script: &Script) -> (Vec<String>, SnapshotRuntimeApplyOutcome) {
    let previous = committed_runtime(20);
    let snapshot = inventory_snapshot(21, Vec::new());
    let transaction = build_snapshot_apply_transaction(
        &previous.ports,
        &snapshot,
        &inventory(Vec::new()),
        ApplyScope::FullHost,
    )
    .unwrap();
    let mut apply = SnapshotApply::start(
        snapshot.generation,
        snapshot.desired_hash,
        previous.ports.clone(),
        previous,
        &transaction,
    );
    let trace = run_apply(&mut apply, script);
    (trace, apply.finish())
}

#[test]
fn removed_ports_are_scrubbed_before_they_are_detached() {
    let (trace, outcome) = start_detach(&Script::default());

    assert_eq!(
        trace,
        vec!["purge tap-committed", "detach tap-committed", "settle detach ok"]
    );
    assert!(!outcome.has_error);
    assert!(outcome.next_runtime.ports.is_empty());
    assert_eq!(outcome.next_runtime.applied_generation, 21);
}

#[test]
fn ports_that_cannot_be_scrubbed_stay_attached() {
    let (trace, outcome) = start_detach(&Script {
        purge_error: Some("map unavailable"),
        ..Script::default()
    });

    assert_eq!(trace, vec!["purge tap-committed", "settle detach error"]);
    assert!(outcome.has_error);
    assert!(outcome.next_runtime.ports.get_text("committed-port").is_some());
    assert_eq!(outcome.next_runtime.applied_generation, 20);
    assert_eq!(outcome.next_runtime.pending_generation, Some(21));
}

#[test]
fn full_hosts_reconcile_what_a_scoped_snapshot_may_reuse() {
    let mut previous = committed_runtime(30);
    let mut desired = port("committed-port", "tap-committed", true);
    desired.managed_domains = vec!["acl".to_string()];
    desired.acl = Some(ready_acl());
    let local = inventory(vec![iface(
        "tap-committed",
        "committed-port",
        Some(9),
        Some("br-int"),
    )]);
    let resolved = build_snapshot_plan(
        &OrderedMap::new(),
        &inventory_snapshot(30, vec![desired.clone()]),
        &local,
    );
    previous.ports.insert(
        "committed-port".to_string(),
        managed_port_from_snapshot(&resolved.attach[0]),
    );
    let snapshot = inventory_snapshot(31, vec![desired]);
    let script = Script {
        health: Some(ManagedProjectionHealth::Verified),
        reuse: true,
        ..Script::default()
    };
    for (scope, expected) in [
        (
            ApplyScope::SinglePort("committed-port".to_string()),
            vec!["attach tap-committed true", "reuse tap-committed", "settle update ok"],
        ),
        (
            ApplyScope::FullHost,
            vec![
                "attach tap-committed true",
                "reconcile tap-committed true",
                "confirm tap-committed",
                "settle update ok",
            ],
        ),
    ] {
        let transaction =
            build_snapshot_apply_transaction(&previous.ports, &snapshot, &local, scope).unwrap();
        let mut apply = SnapshotApply::start(
            31,
            snapshot.desired_hash.clone(),
            previous.ports.clone(),
            previous.clone(),
            &transaction,
        );
        assert_eq!(run_apply(&mut apply, &script), expected);
        assert!(!apply.finish().has_error);
    }
}

fn complete(
    failure: Option<&'static str>,
) -> (Result<(), NeutronAclReconcileError>, Vec<&'static str>) {
    let mut history = AclCompletionHistory::default();
    let mut trace = Vec::new();
    let answer = |step: &'static str, error: &str| {
        if failure == Some(step) || (failure == Some("compensation") && step == "verify") {
            HostOutcome::Failed(error.to_string())
        } else {
            HostOutcome::Done
        }
    };
    loop {
        match execute_managed_acl_post_replace_completion(&history) {
            AclCompletionStep::Publish => {
                trace.push("publish");
                history.published = Some(answer("publish", "forced gate publish failure"));
            }
            AclCompletionStep::CheckFault => {
                trace.push("precommit");
                history.precommit_fault = Some(answer("precommit", "forced precommit failure"));
            }
            AclCompletionStep::Verify => {
                trace.push("verify");
                history.verified =
                    Some(answer("verify", "forced projection verification failure"));
            }
            AclCompletionStep::Requiesce => {
                trace.push("quiesce");
                history.requiesced = Some(if failure == Some("compensation") {
                    HostOutcome::Failed("forced quiesce compensation failure".to_string())
                } else {
                    HostOutcome::Done
                });
            }
            AclCompletionStep::Finish(result) => return (result, trace),
        }
    }
}

#[test]
fn managed_projection_outer_skip_empty_and_nonempty_acl_share_one_completion_executor() {
    let (result, trace) = complete(None);
    assert!(result.is_ok());
    assert_eq!(trace, vec!["publish", "precommit", "verify"]);
}

#[test]
fn managed_projection_outer_skip_completion_failures_requiesce_and_never_verify() {
    for (failure, expected_trace, expected_error) in [
        (
            "publish",
            vec!["publish", "quiesce"],
            "forced gate publish failure",
        ),
        (
            "precommit",
            vec!["publish", "precommit", "quiesce"],
            "forced precommit failure",
        ),
        (
            "verify",
            vec!["publish", "precommit", "verify", "quiesce"],
            "forced projection verification failure",
        ),
    ] {
        let (result, trace) = complete(Some(failure));
        let error = result.expect_err("injected completion step must fail");
        assert_eq!(trace, expected_trace, "failure point {failure}");
        assert!(error.details.contains(expected_error));
        assert_eq!(error.effective_action, "bypass");
    }
}

#[test]
fn managed_projection_outer_skip_compensation_failure_stays_unverified_and_visible() {
    let (result, trace) = complete(Some("compensation"));
    let error = result.expect_err("failed requiesce must fail completion");

    assert_eq!(trace, vec!["publish", "precommit", "verify", "quiesce"]);
    assert!(error.details.contains("forced projection verification failure"));
    assert!(error.details.contains("forced quiesce compensation failure"));
    assert_eq!(error.effective_action, "enforce");
}

fn clean_up(purge_error: Option<&'static str>) -> (HostOutcome, Vec<&'static str>) {
    let mut events = Vec::new();
    let (mut quiesced, mut purged, mut detached) = (None, None, None);
    loop {
        match execute_neutron_acl_detach_cleanup(&quiesced, &purged, &detached) {
            AclDetachCleanupStep::Quiesce => {
                events.push("quiesce");
                quiesced = Some(HostOutcome::Done);
            }
            AclDetachCleanupStep::Purge => {
                events.push("replace-empty-and-strict-flush");
                purged = Some(outcome(purge_error));
            }
            AclDetachCleanupStep::Detach => {
                events.push("detach");
                detached = Some(HostOutcome::Done);
            }
            AclDetachCleanupStep::Finish(result) => return (result, events),
        }
    }
}

#[test]
fn neutron_acl_detach_quiesces_before_owned_projection_removal() {
    let (result, events) = clean_up(None);
    assert_eq!(result, HostOutcome::Done);
    assert_eq!(
        events,
        vec!["quiesce", "replace-empty-and-strict-flush", "detach"]
    );
}

#[test]
fn neutron_acl_purge_failure_aborts_detach_without_partial_owned_state() {
    let (result, events) = clean_up(Some("forced atomic owned purge failure"));
    match result {
        HostOutcome::Failed(error) => {
            assert!(error.contains("forced atomic owned purge failure"), "{error}")
        }
        HostOutcome::Done => panic!("failed owned purge must abort detach"),
    }
    assert_eq!(events, vec!["quiesce", "replace-empty-and-strict-flush"]);
}

#[test]
fn rules_change_only_while_they_are_bypassed() {
    let mut snapshot = port("vm-port", "tap-vm", true);
    snapshot.managed_domains = vec!["acl".to_string()];
    let mut acl = ready_acl();
    acl.rules = vec![NeutronAclRuleSnapshot {
        id: Some("drop-icmp".to_string()),
        direction: Some("ingress".to_string()),
        priority: 100,
        action: Some("drop".to_string()),
        ethertype: None,
        protocol: Some("icmp".to_string()),
        src_cidrs: vec!["192.0.2.2/32".to_string()],
        dst_cidrs: Vec::new(),
        src_port_min: None,
        src_port_max: None,
        dst_port_min: None,
        dst_port_max: None,
    }];
    snapshot.acl = Some(acl);
    let plan = plan_neutron_acl(&snapshot, &mut AclValidationCache::default());
    let mut history = AclReconcileHistory::default();
    let mut trace = Vec::new();
    let result = loop {
        match reconcile_neutron_acl(&snapshot, &plan, false, &history) {
            AclReconcileStep::ReadConfig { .. } => panic!("the plan tells it"),
            AclReconcileStep::RequireTc { .. } => {
                trace.push("tc");
                history.tc_ready = Some(HostOutcome::Done);
            }
            AclReconcileStep::Quiesce { .. } => {
                trace.push("quiesce");
                history.quiesced = Some(HostOutcome::Done);
            }
            AclReconcileStep::CheckFault(name) => {
                let done = Some(HostOutcome::Done);
                match name {
                    "neutron.acl.after_disable" => history.disable_fault = done,
                    "neutron.acl.after_purge" => history.purge_fault = done,
                    "neutron.acl.after_group_write" => history.group_fault = done,
                    "neutron.acl.after_policy_write" => history.policy_fault = done,
                    "neutron.acl.before_enable" => history.enable_fault = done,
                    "neutron.acl.after_enable_before_commit" => history.precommit_fault = done,
                    _ => panic!("unknown fault point {name}"),
                }
            }
            AclReconcileStep::Replace { prefix, groups, policies, .. } => {
                trace.push("replace");
                assert_eq!(prefix, "neutron:vm-port:");
                assert_eq!(groups.len(), 1);
                assert_eq!(policies.len(), 1);
                history.replaced = Some(Ok(AclReplaceReport {
                    group_cidr_add_count: 1,
                    policy_add_count: 1,
                }));
            }
            AclReconcileStep::Publish { conntrack_enabled, acl_enabled, .. } => {
                trace.push("publish");
                assert!(conntrack_enabled && acl_enabled);
                history.published = Some(HostOutcome::Done);
            }
            AclReconcileStep::Verify { .. } => {
                trace.push("verify");
                history.verified = Some(HostOutcome::Done);
            }
            AclReconcileStep::Requiesce { .. } => panic!("nothing failed"),
            AclReconcileStep::Finish(result) => break result,
        }
    };

    assert_eq!(
        result,
        Ok(NeutronAclReconcileOutcome {
            force_bypass_reason: None
        })
    );
    assert_eq!(
        trace,
        vec!["tc", "quiesce", "replace", "publish", "verify"]
    );
}

#[test]
fn purging_replaces_the_rules_of_one_port_by_nothing() {
    let quiesce = purge_neutron_acl_transactionally("tap-vm", "vm-port", &None, &None);
    assert_eq!(
        quiesce,
        AclPurgeStep::Quiesce {
            ifname: "tap-vm".to_string()
        }
    );
    let done = Some(HostOutcome::Done);
    let replace = purge_neutron_acl_transactionally("tap-vm", "vm-port", &done, &None);
    assert_eq!(
        replace,
        AclPurgeStep::ReplaceByNothing {
            ifname: "tap-vm".to_string(),
            prefix: "neutron:vm-port:".to_string()
        }
    );
    let finish = purge_neutron_acl_transactionally("tap-vm", "vm-port", &done, &done);
    assert_eq!(finish, AclPurgeStep::Finish(Ok(())));

    let failed = Some(HostOutcome::Failed("map unavailable".to_string()));
    match purge_neutron_acl_transactionally("tap-vm", "vm-port", &failed, &None) {
        AclPurgeStep::Finish(Err(error)) => assert_eq!(error.effective_action, "unchanged"),
        step => panic!("a gate that stays open must not be passed: {step:?}"),
    }
    match purge_neutron_acl_transactionally("tap-vm", "vm-port", &done, &failed) {
        AclPurgeStep::Finish(Err(error)) => assert_eq!(error.effective_action, "bypass"),
        step => panic!("rules that stay must not be dropped from sight: {step:?}"),
    }
}

#[test]
fn unimplemented_domains_block_a_port() {
    let mut snapshot = port("vm-port", "tap-vm", true);
    snapshot.managed_domains = vec!["acl".to_string(), "qos".to_string()];

    match reconcile_neutron_domains(&snapshot, &None) {
        DomainReconcileStep::Finish(result) => {
            assert!(!result.ok);
            assert!(result.reason.unwrap().starts_with("blocked_by_unimplemented_domains:"));
        }
        DomainReconcileStep::ReconcileAcl => panic!("filtering must wait for every domain"),
    }
}
