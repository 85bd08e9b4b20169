//! The data that the agent works on, each type with its mathematical model.

use crate::ordered::{OrderedMap, Value};
use crate::payload::{EncodedPayload, EncodedPayloadModel};
use vstd::prelude::*;

verus! {

/// One ACL rule as a snapshot states it.
#[derive(Debug, PartialEq, Eq)]
pub struct NeutronAclRuleSnapshot {
    pub id: Option<String>,
    pub direction: Option<String>,
    pub priority: i64,
    pub action: Option<String>,
    pub ethertype: Option<String>,
    pub protocol: Option<String>,
    pub src_cidrs: Vec<String>,
    pub dst_cidrs: Vec<String>,
    pub src_port_min: Option<u16>,
    pub src_port_max: Option<u16>,
    pub dst_port_min: Option<u16>,
    pub dst_port_max: Option<u16>,
}

/// The model of [`NeutronAclRuleSnapshot`].
#[verifier::ext_equal]
pub struct NeutronAclRuleSnapshotModel {
    pub id: Option<Seq<char>>,
    pub direction: Option<Seq<char>>,
    pub priority: i64,
    pub action: Option<Seq<char>>,
    pub ethertype: Option<Seq<char>>,
    pub protocol: Option<Seq<char>>,
    pub src_cidrs: Seq<Seq<char>>,
    pub dst_cidrs: Seq<Seq<char>>,
    pub src_port_min: Option<u16>,
    pub src_port_max: Option<u16>,
    pub dst_port_min: Option<u16>,
    pub dst_port_max: Option<u16>,
}

impl DeepView for NeutronAclRuleSnapshot {
    type V = NeutronAclRuleSnapshotModel;

    open spec fn deep_view(&self) -> NeutronAclRuleSnapshotModel {
        NeutronAclRuleSnapshotModel {
            id: self.id.deep_view(),
            direction: self.direction.deep_view(),
            priority: self.priority,
            action: self.action.deep_view(),
            ethertype: self.ethertype.deep_view(),
            protocol: self.protocol.deep_view(),
            src_cidrs: self.src_cidrs.deep_view(),
            dst_cidrs: self.dst_cidrs.deep_view(),
            src_port_min: self.src_port_min.deep_view(),
            src_port_max: self.src_port_max.deep_view(),
            dst_port_min: self.dst_port_min.deep_view(),
            dst_port_max: self.dst_port_max.deep_view(),
        }
    }
}

impl Value for NeutronAclRuleSnapshot {
    fn duplicate(&self) -> (r: Self) {
        NeutronAclRuleSnapshot {
            id: self.id.duplicate(),
            direction: self.direction.duplicate(),
            priority: self.priority,
            action: self.action.duplicate(),
            ethertype: self.ethertype.duplicate(),
            protocol: self.protocol.duplicate(),
            src_cidrs: self.src_cidrs.duplicate(),
            dst_cidrs: self.dst_cidrs.duplicate(),
            src_port_min: self.src_port_min.duplicate(),
            src_port_max: self.src_port_max.duplicate(),
            dst_port_min: self.dst_port_min.duplicate(),
            dst_port_max: self.dst_port_max.duplicate(),
        }
    }

    fn same(&self, other: &Self) -> (r: bool) {
        self.id.same(&other.id)
            && self.direction.same(&other.direction)
            && self.priority == other.priority
            && self.action.same(&other.action)
            && self.ethertype.same(&other.ethertype)
            && self.protocol.same(&other.protocol)
            && self.src_cidrs.same(&other.src_cidrs)
            && self.dst_cidrs.same(&other.dst_cidrs)
            && self.src_port_min.same(&other.src_port_min)
            && self.src_port_max.same(&other.src_port_max)
            && self.dst_port_min.same(&other.dst_port_min)
            && self.dst_port_max.same(&other.dst_port_max)
    }
}

impl Clone for NeutronAclRuleSnapshot {
    fn clone(&self) -> (r: Self)
        ensures
            r.deep_view() == self.deep_view(),
    {
        self.duplicate()
    }
}

/// The ACL of a port as a snapshot states it.
#[derive(Debug, PartialEq, Eq)]
pub struct NeutronAclSnapshot {
    pub enabled: bool,
    pub status: String,
    pub reason: String,
    pub effective_action: String,
    pub policy_id: Option<String>,
    pub policy_name: Option<String>,
    pub binding_id: Option<String>,
    pub source: Option<String>,
    pub default_action: String,
    pub stateful: bool,
    pub revision: u64,
    pub rules: Vec<NeutronAclRuleSnapshot>,
    /// The encoding of the default action and the rules.
    pub content_payload: EncodedPayload,
}

/// The model of [`NeutronAclSnapshot`].
#[verifier::ext_equal]
pub struct NeutronAclSnapshotModel {
    pub enabled: bool,
    pub status: Seq<char>,
    pub reason: Seq<char>,
    pub effective_action: Seq<char>,
    pub policy_id: Option<Seq<char>>,
    pub policy_name: Option<Seq<char>>,
    pub binding_id: Option<Seq<char>>,
    pub source: Option<Seq<char>>,
    pub default_action: Seq<char>,
    pub stateful: bool,
    pub revision: u64,
    pub rules: Seq<NeutronAclRuleSnapshotModel>,
    pub content_payload: EncodedPayloadModel,
}

impl DeepView for NeutronAclSnapshot {
    type V = NeutronAclSnapshotModel;

    open spec fn deep_view(&self) -> NeutronAclSnapshotModel {
        NeutronAclSnapshotModel {
            enabled: self.enabled,
            status: self.status.deep_view(),
            reason: self.reason.deep_view(),
            effective_action: self.effective_action.deep_view(),
            policy_id: self.policy_id.deep_view(),
            policy_name: self.policy_name.deep_view(),
            binding_id: self.binding_id.deep_view(),
            source: self.source.deep_view(),
            default_action: self.default_action.deep_view(),
            stateful: self.stateful,
            revision: self.revision,
            rules: self.rules.deep_view(),
            content_payload: self.content_payload.deep_view(),
        }
    }
}

impl Value for NeutronAclSnapshot {
    fn duplicate(&self) -> (r: Self) {
        NeutronAclSnapshot {
            enabled: self.enabled,
            status: self.status.duplicate(),
            reason: self.reason.duplicate(),
            effective_action: self.effective_action.duplicate(),
            policy_id: self.policy_id.duplicate(),
            policy_name: self.policy_name.duplicate(),
            binding_id: self.binding_id.duplicate(),
            source: self.source.duplicate(),
            default_action: self.default_action.duplicate(),
            stateful: self.stateful,
            revision: self.revision,
            rules: self.rules.duplicate(),
            content_payload: self.content_payload.duplicate(),
        }
    }

    fn same(&self, other: &Self) -> (r: bool) {
        self.enabled == other.enabled
            && self.status.same(&other.status)
            && self.reason.same(&other.reason)
            && self.effective_action.same(&other.effective_action)
            && self.policy_id.same(&other.policy_id)
            && self.policy_name.same(&other.policy_name)
            && self.binding_id.same(&other.binding_id)
            && self.source.same(&other.source)
            && self.default_action.same(&other.default_action)
            && self.stateful == other.stateful
            && self.revision == other.revision
            && self.rules.same(&other.rules)
            && self.content_payload.same(&other.content_payload)
    }
}

impl Clone for NeutronAclSnapshot {
    fn clone(&self) -> (r: Self)
        ensures
            r.deep_view() == self.deep_view(),
    {
        self.duplicate()
    }
}

/// One port as a snapshot states it.
#[derive(Debug, PartialEq, Eq)]
pub struct NeutronPortSnapshot {
    pub port_id: String,
    pub ifname: String,
    pub ifindex: Option<u32>,
    pub eligible: bool,
    pub disposition: Option<String>,
    pub device_owner: Option<String>,
    pub vif_type: Option<String>,
    pub vnic_type: Option<String>,
    pub network_backend: Option<String>,
    pub ovs_iface_id: Option<String>,
    pub managed_domains: Vec<String>,
    pub acl: Option<NeutronAclSnapshot>,
    /// The ACL of the port in JSON.
    pub acl_payload: EncodedPayload,
}

/// The model of [`NeutronPortSnapshot`].
#[verifier::ext_equal]
pub struct NeutronPortSnapshotModel {
    pub port_id: Seq<char>,
    pub ifname: Seq<char>,
    pub ifindex: Option<u32>,
    pub eligible: bool,
    pub disposition: Option<Seq<char>>,
    pub device_owner: Option<Seq<char>>,
    pub vif_type: Option<Seq<char>>,
    pub vnic_type: Option<Seq<char>>,
    pub network_backend: Option<Seq<char>>,
    pub ovs_iface_id: Option<Seq<char>>,
    pub managed_domains: Seq<Seq<char>>,
    pub acl: Option<NeutronAclSnapshotModel>,
    pub acl_payload: EncodedPayloadModel,
}

impl DeepView for NeutronPortSnapshot {
    type V = NeutronPortSnapshotModel;

    open spec fn deep_view(&self) -> NeutronPortSnapshotModel {
        NeutronPortSnapshotModel {
            port_id: self.port_id.deep_view(),
            ifname: self.ifname.deep_view(),
            ifindex: self.ifindex.deep_view(),
            eligible: self.eligible,
            disposition: self.disposition.deep_view(),
            device_owner: self.device_owner.deep_view(),
            vif_type: self.vif_type.deep_view(),
            vnic_type: self.vnic_type.deep_view(),
            network_backend: self.network_backend.deep_view(),
            ovs_iface_id: self.ovs_iface_id.deep_view(),
            managed_domains: self.managed_domains.deep_view(),
            acl: self.acl.deep_view(),
            acl_payload: self.acl_payload.deep_view(),
        }
    }
}

impl Value for NeutronPortSnapshot {
    fn duplicate(&self) -> (r: Self) {
        NeutronPortSnapshot {
            port_id: self.port_id.duplicate(),
            ifname: self.ifname.duplicate(),
            ifindex: self.ifindex.duplicate(),
            eligible: self.eligible,
            disposition: self.disposition.duplicate(),
            device_owner: self.device_owner.duplicate(),
            vif_type: self.vif_type.duplicate(),
            vnic_type: self.vnic_type.duplicate(),
            network_backend: self.network_backend.duplicate(),
            ovs_iface_id: self.ovs_iface_id.duplicate(),
            managed_domains: self.managed_domains.duplicate(),
            acl: self.acl.duplicate(),
            acl_payload: self.acl_payload.duplicate(),
        }
    }

    fn same(&self, other: &Self) -> (r: bool) {
        self.port_id.same(&other.port_id)
            && self.ifname.same(&other.ifname)
            && self.ifindex.same(&other.ifindex)
            && self.eligible == other.eligible
            && self.disposition.same(&other.disposition)
            && self.device_owner.same(&other.device_owner)
            && self.vif_type.same(&other.vif_type)
            && self.vnic_type.same(&other.vnic_type)
            && self.network_backend.same(&other.network_backend)
            && self.ovs_iface_id.same(&other.ovs_iface_id)
            && self.managed_domains.same(&other.managed_domains)
            && self.acl.same(&other.acl)
            && self.acl_payload.same(&other.acl_payload)
    }
}

impl Clone for NeutronPortSnapshot {
    fn clone(&self) -> (r: Self)
        ensures
            r.deep_view() == self.deep_view(),
    {
        self.duplicate()
    }
}

/// The state that a controller wants on the host.
#[derive(Debug, PartialEq, Eq)]
pub struct NeutronSnapshotRequest {
    pub schema_version: Option<u32>,
    pub generation: u64,
    pub desired_hash: Option<String>,
    pub host: Option<String>,
    pub ports: Vec<NeutronPortSnapshot>,
}

/// The model of [`NeutronSnapshotRequest`].
#[verifier::ext_equal]
pub struct NeutronSnapshotRequestModel {
    pub schema_version: Option<u32>,
    pub generation: u64,
    pub desired_hash: Option<Seq<char>>,
    pub host: Option<Seq<char>>,
    pub ports: Seq<NeutronPortSnapshotModel>,
}

impl DeepView for NeutronSnapshotRequest {
    type V = NeutronSnapshotRequestModel;

    open spec fn deep_view(&self) -> NeutronSnapshotRequestModel {
        NeutronSnapshotRequestModel {
            schema_version: self.schema_version.deep_view(),
            generation: self.generation,
            desired_hash: self.desired_hash.deep_view(),
            host: self.host.deep_view(),
            ports: self.ports.deep_view(),
        }
    }
}

impl Value for NeutronSnapshotRequest {
    fn duplicate(&self) -> (r: Self) {
        NeutronSnapshotRequest {
            schema_version: self.schema_version.duplicate(),
            generation: self.generation,
            desired_hash: self.desired_hash.duplicate(),
            host: self.host.duplicate(),
            ports: self.ports.duplicate(),
        }
    }

    fn same(&self, other: &Self) -> (r: bool) {
        self.schema_version.same(&other.schema_version)
            && self.generation == other.generation
            && self.desired_hash.same(&other.desired_hash)
            && self.host.same(&other.host)
            && self.ports.same(&other.ports)
    }
}

impl Clone for NeutronSnapshotRequest {
    fn clone(&self) -> (r: Self)
        ensures
            r.deep_view() == self.deep_view(),
    {
        self.duplicate()
    }
}

/// A port that the agent manages.
#[derive(Debug, PartialEq, Eq)]
pub struct ManagedNeutronPort {
    pub port_id: String,
    pub ifname: String,
    pub ifindex: Option<u32>,
    pub managed_domains: Vec<String>,
    pub domain_desired_hashes: OrderedMap<String, String>,
}

/// The model of [`ManagedNeutronPort`].
#[verifier::ext_equal]
pub struct ManagedNeutronPortModel {
    pub port_id: Seq<char>,
    pub ifname: Seq<char>,
    pub ifindex: Option<u32>,
    pub managed_domains: Seq<Seq<char>>,
    pub domain_desired_hashes: Map<Seq<char>, Seq<char>>,
}

impl DeepView for ManagedNeutronPort {
    type V = ManagedNeutronPortModel;

    open spec fn deep_view(&self) -> ManagedNeutronPortModel {
        ManagedNeutronPortModel {
            port_id: self.port_id.deep_view(),
            ifname: self.ifname.deep_view(),
            ifindex: self.ifindex.deep_view(),
            managed_domains: self.managed_domains.deep_view(),
            domain_desired_hashes: self.domain_desired_hashes.deep_view(),
        }
    }
}

impl Value for ManagedNeutronPort {
    fn duplicate(&self) -> (r: Self) {
        ManagedNeutronPort {
            port_id: self.port_id.duplicate(),
            ifname: self.ifname.duplicate(),
            ifindex: self.ifindex.duplicate(),
            managed_domains: self.managed_domains.duplicate(),
            domain_desired_hashes: self.domain_desired_hashes.duplicate(),
        }
    }

    fn same(&self, other: &Self) -> (r: bool) {
        self.port_id.same(&other.port_id)
            && self.ifname.same(&other.ifname)
            && self.ifindex.same(&other.ifindex)
            && self.managed_domains.same(&other.managed_domains)
            && self.domain_desired_hashes.same(&other.domain_desired_hashes)
    }
}

impl Clone for ManagedNeutronPort {
    fn clone(&self) -> (r: Self)
        ensures
            r.deep_view() == self.deep_view(),
    {
        self.duplicate()
    }
}

/// What became of one port of a snapshot.
#[derive(Debug, PartialEq, Eq)]
pub struct NeutronPortApplyResult {
    pub port_id: String,
    pub ifname: String,
    pub action: String,
    pub status: String,
    pub reason: Option<String>,
}

/// The model of [`NeutronPortApplyResult`].
#[verifier::ext_equal]
pub struct NeutronPortApplyResultModel {
    pub port_id: Seq<char>,
    pub ifname: Seq<char>,
    pub action: Seq<char>,
    pub status: Seq<char>,
    pub reason: Option<Seq<char>>,
}

impl DeepView for NeutronPortApplyResult {
    type V = NeutronPortApplyResultModel;

    open spec fn deep_view(&self) -> NeutronPortApplyResultModel {
        NeutronPortApplyResultModel {
            port_id: self.port_id.deep_view(),
            ifname: self.ifname.deep_view(),
            action: self.action.deep_view(),
            status: self.status.deep_view(),
            reason: self.reason.deep_view(),
        }
    }
}

impl Value for NeutronPortApplyResult {
    fn duplicate(&self) -> (r: Self) {
        NeutronPortApplyResult {
            port_id: self.port_id.duplicate(),
            ifname: self.ifname.duplicate(),
            action: self.action.duplicate(),
            status: self.status.duplicate(),
            reason: self.reason.duplicate(),
        }
    }

    fn same(&self, other: &Self) -> (r: bool) {
        self.port_id.same(&other.port_id)
            && self.ifname.same(&other.ifname)
            && self.action.same(&other.action)
            && self.status.same(&other.status)
            && self.reason.same(&other.reason)
    }
}

impl Clone for NeutronPortApplyResult {
    fn clone(&self) -> (r: Self)
        ensures
            r.deep_view() == self.deep_view(),
    {
        self.duplicate()
    }
}

/// The answer to a snapshot.
#[derive(Debug, PartialEq, Eq)]
pub struct NeutronSnapshotResponse {
    pub generation: u64,
    pub desired_hash: Option<String>,
    pub accepted_generation: u64,
    pub applied_generation: u64,
    pub status: String,
    pub results: Vec<NeutronPortApplyResult>,
    pub active_instances: Vec<String>,
}

/// The model of [`NeutronSnapshotResponse`].
#[verifier::ext_equal]
pub struct NeutronSnapshotResponseModel {
    pub generation: u64,
    pub desired_hash: Option<Seq<char>>,
    pub accepted_generation: u64,
    pub applied_generation: u64,
    pub status: Seq<char>,
    pub results: Seq<NeutronPortApplyResultModel>,
    pub active_instances: Seq<Seq<char>>,
}

impl DeepView for NeutronSnapshotResponse {
    type V = NeutronSnapshotResponseModel;

    open spec fn deep_view(&self) -> NeutronSnapshotResponseModel {
        NeutronSnapshotResponseModel {
            generation: self.generation,
            desired_hash: self.desired_hash.deep_view(),
            accepted_generation: self.accepted_generation,
            applied_generation: self.applied_generation,
            status: self.status.deep_view(),
            results: self.results.deep_view(),
            active_instances: self.active_instances.deep_view(),
        }
    }
}

impl Value for NeutronSnapshotResponse {
    fn duplicate(&self) -> (r: Self) {
        NeutronSnapshotResponse {
            generation: self.generation,
            desired_hash: self.desired_hash.duplicate(),
            accepted_generation: self.accepted_generation,
            applied_generation: self.applied_generation,
            status: self.status.duplicate(),
            results: self.results.duplicate(),
            active_instances: self.active_instances.duplicate(),
        }
    }

    fn same(&self, other: &Self) -> (r: bool) {
        self.generation == other.generation
            && self.desired_hash.same(&other.desired_hash)
            && self.accepted_generation == other.accepted_generation
            && self.applied_generation == other.applied_generation
            && self.status.same(&other.status)
            && self.results.same(&other.results)
            && self.active_instances.same(&other.active_instances)
    }
}

impl Clone for NeutronSnapshotResponse {
    fn clone(&self) -> (r: Self)
        ensures
            r.deep_view() == self.deep_view(),
    {
        self.duplicate()
    }
}

/// The state of one domain of a port.
#[derive(Debug, PartialEq, Eq)]
pub struct NeutronDomainStatus {
    pub domain: String,
    pub status: String,
    pub reason: Option<String>,
    pub effective_action: Option<String>,
}

/// The model of [`NeutronDomainStatus`].
#[verifier::ext_equal]
pub struct NeutronDomainStatusModel {
    pub domain: Seq<char>,
    pub status: Seq<char>,
    pub reason: Option<Seq<char>>,
    pub effective_action: Option<Seq<char>>,
}

impl DeepView for NeutronDomainStatus {
    type V = NeutronDomainStatusModel;

    open spec fn deep_view(&self) -> NeutronDomainStatusModel {
        NeutronDomainStatusModel {
            domain: self.domain.deep_view(),
            status: self.status.deep_view(),
            reason: self.reason.deep_view(),
            effective_action: self.effective_action.deep_view(),
        }
    }
}

impl Value for NeutronDomainStatus {
    fn duplicate(&self) -> (r: Self) {
        NeutronDomainStatus {
            domain: self.domain.duplicate(),
            status: self.status.duplicate(),
            reason: self.reason.duplicate(),
            effective_action: self.effective_action.duplicate(),
        }
    }

    fn same(&self, other: &Self) -> (r: bool) {
        self.domain.same(&other.domain)
            && self.status.same(&other.status)
            && self.reason.same(&other.reason)
            && self.effective_action.same(&other.effective_action)
    }
}

impl Clone for NeutronDomainStatus {
    fn clone(&self) -> (r: Self)
        ensures
            r.deep_view() == self.deep_view(),
    {
        self.duplicate()
    }
}

/// The state of a port.
#[derive(Debug, PartialEq, Eq)]
pub struct NeutronPortStatus {
    pub port_id: String,
    pub ifname: String,
    pub generation: u64,
    pub desired_hash: Option<String>,
    pub status: String,
    pub reason: Option<String>,
    pub managed_domains: Vec<String>,
    pub domains: Vec<NeutronDomainStatus>,
}

/// The model of [`NeutronPortStatus`].
#[verifier::ext_equal]
pub struct NeutronPortStatusModel {
    pub port_id: Seq<char>,
    pub ifname: Seq<char>,
    pub generation: u64,
    pub desired_hash: Option<Seq<char>>,
    pub status: Seq<char>,
    pub reason: Option<Seq<char>>,
    pub managed_domains: Seq<Seq<char>>,
    pub domains: Seq<NeutronDomainStatusModel>,
}

impl DeepView for NeutronPortStatus {
    type V = NeutronPortStatusModel;

    open spec fn deep_view(&self) -> NeutronPortStatusModel {
        NeutronPortStatusModel {
            port_id: self.port_id.deep_view(),
            ifname: self.ifname.deep_view(),
            generation: self.generation,
            desired_hash: self.desired_hash.deep_view(),
            status: self.status.deep_view(),
            reason: self.reason.deep_view(),
            managed_domains: self.managed_domains.deep_view(),
            domains: self.domains.deep_view(),
        }
    }
}

impl Value for NeutronPortStatus {
    fn duplicate(&self) -> (r: Self) {
        NeutronPortStatus {
            port_id: self.port_id.duplicate(),
            ifname: self.ifname.duplicate(),
            generation: self.generation,
            desired_hash: self.desired_hash.duplicate(),
            status: self.status.duplicate(),
            reason: self.reason.duplicate(),
            managed_domains: self.managed_domains.duplicate(),
            domains: self.domains.duplicate(),
        }
    }

    fn same(&self, other: &Self) -> (r: bool) {
        self.port_id.same(&other.port_id)
            && self.ifname.same(&other.ifname)
            && self.generation == other.generation
            && self.desired_hash.same(&other.desired_hash)
            && self.status.same(&other.status)
            && self.reason.same(&other.reason)
            && self.managed_domains.same(&other.managed_domains)
            && self.domains.same(&other.domains)
    }
}

impl Clone for NeutronPortStatus {
    fn clone(&self) -> (r: Self)
        ensures
            r.deep_view() == self.deep_view(),
    {
        self.duplicate()
    }
}

/// What the agent knows of the snapshots it accepted and applied.
#[derive(Debug, PartialEq, Eq)]
pub struct NeutronRuntimeState {
    pub accepted_generation: u64,
    pub applied_generation: u64,
    pub pending_generation: Option<u64>,
    pub desired_hash: Option<String>,
    pub applied_desired_hash: Option<String>,
    pub authority_state: String,
    pub ports: OrderedMap<String, ManagedNeutronPort>,
    pub port_statuses: OrderedMap<String, NeutronPortStatus>,
    pub wal_status: String,
    pub recovery_cause: Option<String>,
    pub wal_replay_failures: u64,
}

/// The model of [`NeutronRuntimeState`].
#[verifier::ext_equal]
pub struct NeutronRuntimeStateModel {
    pub accepted_generation: u64,
    pub applied_generation: u64,
    pub pending_generation: Option<u64>,
    pub desired_hash: Option<Seq<char>>,
    pub applied_desired_hash: Option<Seq<char>>,
    pub authority_state: Seq<char>,
    pub ports: Map<Seq<char>, ManagedNeutronPortModel>,
    pub port_statuses: Map<Seq<char>, NeutronPortStatusModel>,
    pub wal_status: Seq<char>,
    pub recovery_cause: Option<Seq<char>>,
    pub wal_replay_failures: u64,
}

impl DeepView for NeutronRuntimeState {
    type V = NeutronRuntimeStateModel;

    open spec fn deep_view(&self) -> NeutronRuntimeStateModel {
        NeutronRuntimeStateModel {
            accepted_generation: self.accepted_generation,
            applied_generation: self.applied_generation,
            pending_generation: self.pending_generation.deep_view(),
            desired_hash: self.desired_hash.deep_view(),
            applied_desired_hash: self.applied_desired_hash.deep_view(),
            authority_state: self.authority_state.deep_view(),
            ports: self.ports.deep_view(),
            port_statuses: self.port_statuses.deep_view(),
            wal_status: self.wal_status.deep_view(),
            recovery_cause: self.recovery_cause.deep_view(),
            wal_replay_failures: self.wal_replay_failures,
        }
    }
}

impl Value for NeutronRuntimeState {
    fn duplicate(&self) -> (r: Self) {
        NeutronRuntimeState {
            accepted_generation: self.accepted_generation,
            applied_generation: self.applied_generation,
            pending_generation: self.pending_generation.duplicate(),
            desired_hash: self.desired_hash.duplicate(),
            applied_desired_hash: self.applied_desired_hash.duplicate(),
            authority_state: self.authority_state.duplicate(),
            ports: self.ports.duplicate(),
            port_statuses: self.port_statuses.duplicate(),
            wal_status: self.wal_status.duplicate(),
            recovery_cause: self.recovery_cause.duplicate(),
            wal_replay_failures: self.wal_replay_failures,
        }
    }

    fn same(&self, other: &Self) -> (r: bool) {
        self.accepted_generation == other.accepted_generation
            && self.applied_generation == other.applied_generation
            && self.pending_generation.same(&other.pending_generation)
            && self.desired_hash.same(&other.desired_hash)
            && self.applied_desired_hash.same(&other.applied_desired_hash)
            && self.authority_state.same(&other.authority_state)
            && self.ports.same(&other.ports)
            && self.port_statuses.same(&other.port_statuses)
            && self.wal_status.same(&other.wal_status)
            && self.recovery_cause.same(&other.recovery_cause)
            && self.wal_replay_failures == other.wal_replay_failures
    }
}

impl Clone for NeutronRuntimeState {
    fn clone(&self) -> (r: Self)
        ensures
            r.deep_view() == self.deep_view(),
    {
        self.duplicate()
    }
}

impl Default for NeutronRuntimeState {
    fn default() -> (r: Self)
        ensures
            r.deep_view() == (NeutronRuntimeStateModel {
                accepted_generation: 0,
                applied_generation: 0,
                pending_generation: None,
                desired_hash: None,
                applied_desired_hash: None,
                authority_state: Seq::empty(),
                ports: Map::empty(),
                port_statuses: Map::empty(),
                wal_status: Seq::empty(),
                recovery_cause: None,
                wal_replay_failures: 0,
            }),
    {
        NeutronRuntimeState {
            accepted_generation: 0,
            applied_generation: 0,
            pending_generation: None,
            desired_hash: None,
            applied_desired_hash: None,
            authority_state: String::new(),
            ports: OrderedMap::new(),
            port_statuses: OrderedMap::new(),
            wal_status: String::new(),
            recovery_cause: None,
            wal_replay_failures: 0,
        }
    }
}

/// The state that the write-ahead log records at a commit.
#[derive(Debug, PartialEq, Eq)]
pub struct NeutronWalState {
    pub accepted_generation: u64,
    pub applied_generation: u64,
    pub pending_generation: Option<u64>,
    pub desired_hash: Option<String>,
    pub applied_desired_hash: Option<String>,
    pub authority_state: String,
    pub ports: OrderedMap<String, ManagedNeutronPort>,
    pub port_statuses: OrderedMap<String, NeutronPortStatus>,
    pub recovery_cause: Option<String>,
    pub status_hash: Option<String>,
}

/// The model of [`NeutronWalState`].
#[verifier::ext_equal]
pub struct NeutronWalStateModel {
    pub accepted_generation: u64,
    pub applied_generation: u64,
    pub pending_generation: Option<u64>,
    pub desired_hash: Option<Seq<char>>,
    pub applied_desired_hash: Option<Seq<char>>,
    pub authority_state: Seq<char>,
    pub ports: Map<Seq<char>, ManagedNeutronPortModel>,
    pub port_statuses: Map<Seq<char>, NeutronPortStatusModel>,
    pub recovery_cause: Option<Seq<char>>,
    pub status_hash: Option<Seq<char>>,
}

impl DeepView for NeutronWalState {
    type V = NeutronWalStateModel;

    open spec fn deep_view(&self) -> NeutronWalStateModel {
        NeutronWalStateModel {
            accepted_generation: self.accepted_generation,
            applied_generation: self.applied_generation,
            pending_generation: self.pending_generation.deep_view(),
            desired_hash: self.desired_hash.deep_view(),
            applied_desired_hash: self.applied_desired_hash.deep_view(),
            authority_state: self.authority_state.deep_view(),
            ports: self.ports.deep_view(),
            port_statuses: self.port_statuses.deep_view(),
            recovery_cause: self.recovery_cause.deep_view(),
            status_hash: self.status_hash.deep_view(),
        }
    }
}

impl Value for NeutronWalState {
    fn duplicate(&self) -> (r: Self) {
        NeutronWalState {
            accepted_generation: self.accepted_generation,
            applied_generation: self.applied_generation,
            pending_generation: self.pending_generation.duplicate(),
            desired_hash: self.desired_hash.duplicate(),
            applied_desired_hash: self.applied_desired_hash.duplicate(),
            authority_state: self.authority_state.duplicate(),
            ports: self.ports.duplicate(),
            port_statuses: self.port_statuses.duplicate(),
            recovery_cause: self.recovery_cause.duplicate(),
            status_hash: self.status_hash.duplicate(),
        }
    }

    fn same(&self, other: &Self) -> (r: bool) {
        self.accepted_generation == other.accepted_generation
            && self.applied_generation == other.applied_generation
            && self.pending_generation.same(&other.pending_generation)
            && self.desired_hash.same(&other.desired_hash)
            && self.applied_desired_hash.same(&other.applied_desired_hash)
            && self.authority_state.same(&other.authority_state)
            && self.ports.same(&other.ports)
            && self.port_statuses.same(&other.port_statuses)
            && self.recovery_cause.same(&other.recovery_cause)
            && self.status_hash.same(&other.status_hash)
    }
}

impl Clone for NeutronWalState {
    fn clone(&self) -> (r: Self)
        ensures
            r.deep_view() == self.deep_view(),
    {
        self.duplicate()
    }
}

/// A change that the write-ahead log announces before it is made.
#[derive(Debug, PartialEq, Eq)]
pub struct PendingNeutronIntent {
    pub kind: String,
    pub generation: u64,
    pub desired_hash: Option<String>,
    pub port_ids: Vec<String>,
    pub affected_domains: Vec<String>,
    pub affected_ports: Vec<ManagedNeutronPort>,
    pub recovery_cause: Option<String>,
}

/// The model of [`PendingNeutronIntent`].
#[verifier::ext_equal]
pub struct PendingNeutronIntentModel {
    pub kind: Seq<char>,
    pub generation: u64,
    pub desired_hash: Option<Seq<char>>,
    pub port_ids: Seq<Seq<char>>,
    pub affected_domains: Seq<Seq<char>>,
    pub affected_ports: Seq<ManagedNeutronPortModel>,
    pub recovery_cause: Option<Seq<char>>,
}

impl DeepView for PendingNeutronIntent {
    type V = PendingNeutronIntentModel;

    open spec fn deep_view(&self) -> PendingNeutronIntentModel {
        PendingNeutronIntentModel {
            kind: self.kind.deep_view(),
            generation: self.generation,
            desired_hash: self.desired_hash.deep_view(),
            port_ids: self.port_ids.deep_view(),
            affected_domains: self.affected_domains.deep_view(),
            affected_ports: self.affected_ports.deep_view(),
            recovery_cause: self.recovery_cause.deep_view(),
        }
    }
}

impl Value for PendingNeutronIntent {
    fn duplicate(&self) -> (r: Self) {
        PendingNeutronIntent {
            kind: self.kind.duplicate(),
            generation: self.generation,
            desired_hash: self.desired_hash.duplicate(),
            port_ids: self.port_ids.duplicate(),
            affected_domains: self.affected_domains.duplicate(),
            affected_ports: self.affected_ports.duplicate(),
            recovery_cause: self.recovery_cause.duplicate(),
        }
    }

    fn same(&self, other: &Self) -> (r: bool) {
        self.kind.same(&other.kind)
            && self.generation == other.generation
            && self.desired_hash.same(&other.desired_hash)
            && self.port_ids.same(&other.port_ids)
            && self.affected_domains.same(&other.affected_domains)
            && self.affected_ports.same(&other.affected_ports)
            && self.recovery_cause.same(&other.recovery_cause)
    }
}

impl Clone for PendingNeutronIntent {
    fn clone(&self) -> (r: Self)
        ensures
            r.deep_view() == self.deep_view(),
    {
        self.duplicate()
    }
}

impl Default for PendingNeutronIntent {
    fn default() -> (r: Self)
        ensures
            r.deep_view() == (PendingNeutronIntentModel {
                kind: Seq::empty(),
                generation: 0,
                desired_hash: None,
                port_ids: Seq::empty(),
                affected_domains: Seq::empty(),
                affected_ports: Seq::empty(),
                recovery_cause: None,
            }),
    {
        let r = PendingNeutronIntent {
            kind: String::new(),
            generation: 0,
            desired_hash: None,
            port_ids: Vec::new(),
            affected_domains: Vec::new(),
            affected_ports: Vec::new(),
            recovery_cause: None,
        };
        assert(r.port_ids.deep_view() =~= Seq::<Seq<char>>::empty());
        assert(r.affected_domains.deep_view() =~= Seq::<Seq<char>>::empty());
        assert(r.affected_ports.deep_view() =~= Seq::<ManagedNeutronPortModel>::empty());
        r
    }
}

/// What reading the write-ahead log gave.
#[derive(Debug, PartialEq, Eq)]
pub struct NeutronWalReplay {
    pub state: NeutronWalState,
    pub status: String,
    pub failures: u64,
    pub pending_intent: Option<PendingNeutronIntent>,
}

/// The model of [`NeutronWalReplay`].
#[verifier::ext_equal]
pub struct NeutronWalReplayModel {
    pub state: NeutronWalStateModel,
    pub status: Seq<char>,
    pub failures: u64,
    pub pending_intent: Option<PendingNeutronIntentModel>,
}

impl DeepView for NeutronWalReplay {
    type V = NeutronWalReplayModel;

    open spec fn deep_view(&self) -> NeutronWalReplayModel {
        NeutronWalReplayModel {
            state: self.state.deep_view(),
            status: self.status.deep_view(),
            failures: self.failures,
            pending_intent: self.pending_intent.deep_view(),
        }
    }
}

impl Value for NeutronWalReplay {
    fn duplicate(&self) -> (r: Self) {
        NeutronWalReplay {
            state: self.state.duplicate(),
            status: self.status.duplicate(),
            failures: self.failures,
            pending_intent: self.pending_intent.duplicate(),
        }
    }

    fn same(&self, other: &Self) -> (r: bool) {
        self.state.same(&other.state)
            && self.status.same(&other.status)
            && self.failures == other.failures
            && self.pending_intent.same(&other.pending_intent)
    }
}

impl Clone for NeutronWalReplay {
    fn clone(&self) -> (r: Self)
        ensures
            r.deep_view() == self.deep_view(),
    {
        self.duplicate()
    }
}

} // verus!
