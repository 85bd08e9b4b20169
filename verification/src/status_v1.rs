//! What the runtime state amounts to for the other side.

use crate::domains::{
    domain_name, name_domain, normal_domains, normalize_managed_domains,
};
use crate::host::{as_text, is_text, string_is};
use crate::model::{
    ManagedNeutronPort, ManagedNeutronPortModel, NeutronDomainStatus, NeutronDomainStatusModel,
    NeutronPortStatus, NeutronPortStatusModel, NeutronRuntimeState, NeutronRuntimeStateModel,
};
use crate::ordered::{in_order, lemma_filter_step, list_contains, OrderedMap, Value};
use crate::text::{
    ends_with, has_prefix, has_suffix, starts_with, text_eq, trim, trimmed,
};
use vstd::prelude::*;
use vstd::string::*;

verus! {

/// Where the current transaction stands.
#[derive(Clone, Copy, Debug, PartialEq, Eq, Structural)]
pub enum NeutronStatusTransactionState {
    Idle,
    Pending,
    Blocked,
    Recovery,
    Classified,
}

impl DeepView for NeutronStatusTransactionState {
    type V = NeutronStatusTransactionState;

    open spec fn deep_view(&self) -> NeutronStatusTransactionState {
        *self
    }
}

impl Value for NeutronStatusTransactionState {
    fn duplicate(&self) -> (r: Self) {
        *self
    }

    fn same(&self, other: &Self) -> (r: bool) {
        *self == *other
    }
}

/// How ready the host is as a whole.
#[derive(Clone, Copy, Debug, PartialEq, Eq, Structural)]
pub enum NeutronStatusOverallReadiness {
    Unknown,
    Ready,
    Degraded,
    Blocked,
}

impl DeepView for NeutronStatusOverallReadiness {
    type V = NeutronStatusOverallReadiness;

    open spec fn deep_view(&self) -> NeutronStatusOverallReadiness {
        *self
    }
}

impl Value for NeutronStatusOverallReadiness {
    fn duplicate(&self) -> (r: Self) {
        *self
    }

    fn same(&self, other: &Self) -> (r: bool) {
        *self == *other
    }
}

/// What the other side has to do next.
#[derive(Clone, Copy, Debug, PartialEq, Eq, Structural)]
pub enum NeutronStatusRequiredAction {
    NoAction,
    Poll,
    FullResync,
    RecoverPending,
    RetrySnapshot,
    Operator,
}

impl DeepView for NeutronStatusRequiredAction {
    type V = NeutronStatusRequiredAction;

    open spec fn deep_view(&self) -> NeutronStatusRequiredAction {
        *self
    }
}

impl Value for NeutronStatusRequiredAction {
    fn duplicate(&self) -> (r: Self) {
        *self
    }

    fn same(&self, other: &Self) -> (r: bool) {
        *self == *other
    }
}

/// Why a recovery is needed, where the cause is known.
#[derive(Clone, Copy, Debug, PartialEq, Eq, Structural)]
pub enum NeutronStatusRecoveryCause {
    InventoryUnavailable,
}

impl DeepView for NeutronStatusRecoveryCause {
    type V = NeutronStatusRecoveryCause;

    open spec fn deep_view(&self) -> NeutronStatusRecoveryCause {
        *self
    }
}

impl Value for NeutronStatusRecoveryCause {
    fn duplicate(&self) -> (r: Self) {
        *self
    }

    fn same(&self, other: &Self) -> (r: bool) {
        *self == *other
    }
}

/// What the data path does for a domain.
#[derive(Clone, Copy, Debug, PartialEq, Eq, Structural)]
pub enum NeutronStatusEffectiveAction {
    Enforce,
    Bypass,
    Unchanged,
    Cleanup,
    NoOp,
}

impl DeepView for NeutronStatusEffectiveAction {
    type V = NeutronStatusEffectiveAction;

    open spec fn deep_view(&self) -> NeutronStatusEffectiveAction {
        *self
    }
}

impl Value for NeutronStatusEffectiveAction {
    fn duplicate(&self) -> (r: Self) {
        *self
    }

    fn same(&self, other: &Self) -> (r: bool) {
        *self == *other
    }
}

/// Whether what a domain asks for is supported.
#[derive(Clone, Copy, Debug, PartialEq, Eq, Structural)]
pub enum NeutronStatusSupportDisposition {
    Supported,
    Unsupported,
    NotApplicable,
    Unknown,
}

impl DeepView for NeutronStatusSupportDisposition {
    type V = NeutronStatusSupportDisposition;

    open spec fn deep_view(&self) -> NeutronStatusSupportDisposition {
        *self
    }
}

impl Value for NeutronStatusSupportDisposition {
    fn duplicate(&self) -> (r: Self) {
        *self
    }

    fn same(&self, other: &Self) -> (r: bool) {
        *self == *other
    }
}

/// The state of a domain as it is reported.
#[derive(Clone, Copy, Debug, PartialEq, Eq, Structural)]
pub enum NeutronStatusDomainState {
    Ready,
    NotRequested,
    Degraded,
    Blocked,
}

impl DeepView for NeutronStatusDomainState {
    type V = NeutronStatusDomainState;

    open spec fn deep_view(&self) -> NeutronStatusDomainState {
        *self
    }
}

impl Value for NeutronStatusDomainState {
    fn duplicate(&self) -> (r: Self) {
        *self
    }

    fn same(&self, other: &Self) -> (r: bool) {
        *self == *other
    }
}

/// What a piece of evidence allows to conclude, from best to worst.
#[derive(Clone, Copy, Debug, PartialEq, Eq, Structural)]
pub enum StatusV1EvidenceClass {
    Ready,
    TerminalDegraded,
    FullResync,
    Blocked,
}

impl DeepView for StatusV1EvidenceClass {
    type V = StatusV1EvidenceClass;

    open spec fn deep_view(&self) -> StatusV1EvidenceClass {
        *self
    }
}

impl Value for StatusV1EvidenceClass {
    fn duplicate(&self) -> (r: Self) {
        *self
    }

    fn same(&self, other: &Self) -> (r: bool) {
        *self == *other
    }
}

/// The evidence on one domain of a port.
#[derive(Debug, PartialEq, Eq)]
pub struct NeutronStatusDomainEvidence {
    pub domain: String,
    pub status: NeutronStatusDomainState,
    pub reason: Option<String>,
    pub effective_action: Option<NeutronStatusEffectiveAction>,
    pub support_disposition: NeutronStatusSupportDisposition,
}

/// The model of [`NeutronStatusDomainEvidence`].
#[verifier::ext_equal]
pub struct DomainEvidenceModel {
    pub domain: Seq<char>,
    pub status: NeutronStatusDomainState,
    pub reason: Option<Seq<char>>,
    pub effective_action: Option<NeutronStatusEffectiveAction>,
    pub support_disposition: NeutronStatusSupportDisposition,
}

impl DeepView for NeutronStatusDomainEvidence {
    type V = DomainEvidenceModel;

    open spec fn deep_view(&self) -> DomainEvidenceModel {
        DomainEvidenceModel {
            domain: self.domain.deep_view(),
            status: self.status.deep_view(),
            reason: self.reason.deep_view(),
            effective_action: self.effective_action.deep_view(),
            support_disposition: self.support_disposition.deep_view(),
        }
    }
}

impl Value for NeutronStatusDomainEvidence {
    fn duplicate(&self) -> (r: Self) {
        NeutronStatusDomainEvidence {
            domain: self.domain.duplicate(),
            status: self.status.duplicate(),
            reason: self.reason.duplicate(),
            effective_action: self.effective_action.duplicate(),
            support_disposition: self.support_disposition.duplicate(),
        }
    }

    fn same(&self, other: &Self) -> (r: bool) {
        self.domain.same(&other.domain)
            && self.status.same(&other.status)
            && self.reason.same(&other.reason)
            && self.effective_action.same(&other.effective_action)
            && self.support_disposition.same(&other.support_disposition)
    }
}

impl Clone for NeutronStatusDomainEvidence {
    fn clone(&self) -> (r: Self)
        ensures
            r.deep_view() == self.deep_view(),
    {
        self.duplicate()
    }
}

/// The evidence on one port.
#[derive(Debug, PartialEq, Eq)]
pub struct NeutronStatusPortEvidence {
    pub port_id: String,
    pub ifname: String,
    pub generation: u64,
    pub desired_hash: Option<String>,
    pub status: String,
    pub reason: Option<String>,
    pub managed_domains: Vec<String>,
    pub domains: Vec<NeutronStatusDomainEvidence>,
}

/// The model of [`NeutronStatusPortEvidence`].
#[verifier::ext_equal]
pub struct PortEvidenceModel {
    pub port_id: Seq<char>,
    pub ifname: Seq<char>,
    pub generation: u64,
    pub desired_hash: Option<Seq<char>>,
    pub status: Seq<char>,
    pub reason: Option<Seq<char>>,
    pub managed_domains: Seq<Seq<char>>,
    pub domains: Seq<DomainEvidenceModel>,
}

impl DeepView for NeutronStatusPortEvidence {
    type V = PortEvidenceModel;

    open spec fn deep_view(&self) -> PortEvidenceModel {
        PortEvidenceModel {
            port_id: self.port_id.deep_view(),
            ifname: self.ifname.deep_view(),
            generation: self.generation,
            desired_hash: self.desired_hash.deep_view(),
            status: self.status.deep_view(),
            reason: self.reason.deep_view(),
            managed_domains: self.managed_domains.deep_view(),
            domains: self.domains.deep_view(),
        }
    }
}

impl Value for NeutronStatusPortEvidence {
    fn duplicate(&self) -> (r: Self) {
        NeutronStatusPortEvidence {
            port_id: self.port_id.duplicate(),
            ifname: self.ifname.duplicate(),
            generation: self.generation,
            desired_hash: self.desired_hash.duplicate(),
            status: self.status.duplicate(),
            reason: self.reason.duplicate(),
            managed_domains: self.managed_domains.duplicate(),
            domains: self.domains.duplicate(),
        }
    }

    fn same(&self, other: &Self) -> (r: bool) {
        self.port_id.same(&other.port_id)
            && self.ifname.same(&other.ifname)
            && self.generation == other.generation
            && self.desired_hash.same(&other.desired_hash)
            && self.status.same(&other.status)
            && self.reason.same(&other.reason)
            && self.managed_domains.same(&other.managed_domains)
            && self.domains.same(&other.domains)
    }
}

impl Clone for NeutronStatusPortEvidence {
    fn clone(&self) -> (r: Self)
        ensures
            r.deep_view() == self.deep_view(),
    {
        self.duplicate()
    }
}

/// What the runtime state amounts to.
#[derive(Debug, PartialEq, Eq)]
pub struct NeutronStatusV1Projection {
    pub transaction_state: NeutronStatusTransactionState,
    pub overall_readiness: NeutronStatusOverallReadiness,
    pub required_action: NeutronStatusRequiredAction,
    pub recovery_cause: Option<NeutronStatusRecoveryCause>,
    pub last_classified_generation: u64,
    pub port_statuses: Vec<NeutronStatusPortEvidence>,
}

/// The model of [`NeutronStatusV1Projection`].
#[verifier::ext_equal]
pub struct ProjectionModel {
    pub transaction_state: NeutronStatusTransactionState,
    pub overall_readiness: NeutronStatusOverallReadiness,
    pub required_action: NeutronStatusRequiredAction,
    pub recovery_cause: Option<NeutronStatusRecoveryCause>,
    pub last_classified_generation: u64,
    pub port_statuses: Seq<PortEvidenceModel>,
}

impl DeepView for NeutronStatusV1Projection {
    type V = ProjectionModel;

    open spec fn deep_view(&self) -> ProjectionModel {
        ProjectionModel {
            transaction_state: self.transaction_state.deep_view(),
            overall_readiness: self.overall_readiness.deep_view(),
            required_action: self.required_action.deep_view(),
            recovery_cause: self.recovery_cause.deep_view(),
            last_classified_generation: self.last_classified_generation,
            port_statuses: self.port_statuses.deep_view(),
        }
    }
}

impl Value for NeutronStatusV1Projection {
    fn duplicate(&self) -> (r: Self) {
        NeutronStatusV1Projection {
            transaction_state: self.transaction_state.duplicate(),
            overall_readiness: self.overall_readiness.duplicate(),
            required_action: self.required_action.duplicate(),
            recovery_cause: self.recovery_cause.duplicate(),
            last_classified_generation: self.last_classified_generation,
            port_statuses: self.port_statuses.duplicate(),
        }
    }

    fn same(&self, other: &Self) -> (r: bool) {
        self.transaction_state.same(&other.transaction_state)
            && self.overall_readiness.same(&other.overall_readiness)
            && self.required_action.same(&other.required_action)
            && self.recovery_cause.same(&other.recovery_cause)
            && self.last_classified_generation == other.last_classified_generation
            && self.port_statuses.same(&other.port_statuses)
    }
}

impl Clone for NeutronStatusV1Projection {
    fn clone(&self) -> (r: Self)
        ensures
            r.deep_view() == self.deep_view(),
    {
        self.duplicate()
    }
}

impl StatusV1EvidenceClass {
    /// How bad a class is.
    pub open spec fn rank(self) -> nat {
        match self {
            StatusV1EvidenceClass::Ready => 0,
            StatusV1EvidenceClass::TerminalDegraded => 1,
            StatusV1EvidenceClass::FullResync => 2,
            StatusV1EvidenceClass::Blocked => 3,
        }
    }
}

/// The worse of two classes.
pub open spec fn worse_class(
    a: StatusV1EvidenceClass,
    b: StatusV1EvidenceClass,
) -> StatusV1EvidenceClass {
    if a.rank() >= b.rank() {
        a
    } else {
        b
    }
}

/// Takes the worse of two classes.
pub fn worse(a: StatusV1EvidenceClass, b: StatusV1EvidenceClass) -> (r: StatusV1EvidenceClass)
    ensures
        r == worse_class(a, b),
{
    match (a, b) {
        (StatusV1EvidenceClass::Blocked, _) => a,
        (_, StatusV1EvidenceClass::Blocked) => b,
        (StatusV1EvidenceClass::FullResync, _) => a,
        (_, StatusV1EvidenceClass::FullResync) => b,
        (StatusV1EvidenceClass::TerminalDegraded, _) => a,
        (_, StatusV1EvidenceClass::TerminalDegraded) => b,
        (StatusV1EvidenceClass::Ready, StatusV1EvidenceClass::Ready) => a,
    }
}

fn option_is(text: Option<&str>, wanted: &str) -> (r: bool)
    ensures
        r == is_text(text.deep_view(), wanted@),
{
    match text {
        Some(t) => text_eq(t, wanted),
        None => false,
    }
}

/// True when a reason says that the data path has to be built anew.
pub open spec fn resync_reason(reason: Option<Seq<char>>) -> bool {
    ||| is_text(reason, "runtime_rebuild_required"@)
    ||| is_text(reason, "acl_restart_replay_requires_resync"@)
    ||| is_text(reason, "tc_acl_link_lost"@)
}

/// Whether a reason says that the data path has to be built anew.
pub fn status_v1_reason_requires_full_resync(reason: Option<&str>) -> (r: bool)
    ensures
        r == resync_reason(reason.deep_view()),
{
    option_is(reason, "runtime_rebuild_required") || option_is(
        reason,
        "acl_restart_replay_requires_resync",
    ) || option_is(reason, "tc_acl_link_lost")
}

/// The action that a text names.
pub open spec fn named_action(action: Option<Seq<char>>) -> Option<NeutronStatusEffectiveAction> {
    if is_text(action, "enforce"@) {
        Some(NeutronStatusEffectiveAction::Enforce)
    } else if is_text(action, "bypass"@) {
        Some(NeutronStatusEffectiveAction::Bypass)
    } else if is_text(action, "unchanged"@) {
        Some(NeutronStatusEffectiveAction::Unchanged)
    } else if is_text(action, "cleanup"@) {
        Some(NeutronStatusEffectiveAction::Cleanup)
    } else if is_text(action, "no_op"@) {
        Some(NeutronStatusEffectiveAction::NoOp)
    } else {
        None
    }
}

/// Finds the action that a text names.
pub fn status_v1_effective_action(action: Option<&str>) -> (r: Option<NeutronStatusEffectiveAction>)
    ensures
        r == named_action(action.deep_view()),
{
    if option_is(action, "enforce") {
        Some(NeutronStatusEffectiveAction::Enforce)
    } else if option_is(action, "bypass") {
        Some(NeutronStatusEffectiveAction::Bypass)
    } else if option_is(action, "unchanged") {
        Some(NeutronStatusEffectiveAction::Unchanged)
    } else if option_is(action, "cleanup") {
        Some(NeutronStatusEffectiveAction::Cleanup)
    } else if option_is(action, "no_op") {
        Some(NeutronStatusEffectiveAction::NoOp)
    } else {
        None
    }
}

/// True when a reason says that something asked for is not supported.
pub open spec fn unsupported_reason(reason: Option<Seq<char>>) -> bool {
    match reason {
        None => false,
        Some(reason) => {
            ||| reason == "acl_not_supported"@
            ||| has_prefix(reason, "acl_rule_limit_exceeded:"@)
            ||| has_prefix(reason, "acl_selector_member_limit_exceeded:"@)
            ||| has_prefix(reason, "unsupported_acl_"@)
            ||| has_prefix(reason, "invalid_acl_priority:"@)
            ||| has_prefix(reason, "duplicate_acl_priority:"@)
            ||| has_suffix(reason, "_transaction_not_implemented"@)
            ||| has_prefix(reason, "blocked_by_unimplemented_domains:"@)
            ||| has_prefix(reason, "unsupported_recovery_domain:"@)
        },
    }
}

/// Whether a reason says that something asked for is not supported.
pub fn status_v1_reason_is_unsupported(reason: Option<&str>) -> (r: bool)
    ensures
        r == unsupported_reason(reason.deep_view()),
{
    match reason {
        None => false,
        Some(reason) => text_eq(reason, "acl_not_supported") || starts_with(
            reason,
            "acl_rule_limit_exceeded:",
        ) || starts_with(reason, "acl_selector_member_limit_exceeded:") || starts_with(
            reason,
            "unsupported_acl_",
        ) || starts_with(reason, "invalid_acl_priority:") || starts_with(
            reason,
            "duplicate_acl_priority:",
        ) || ends_with(reason, "_transaction_not_implemented") || starts_with(
            reason,
            "blocked_by_unimplemented_domains:",
        ) || starts_with(reason, "unsupported_recovery_domain:"),
    }
}

/// Whether what a domain asks for is supported, as its status and reason tell.
pub open spec fn support_of(
    domain: Seq<char>,
    status: Seq<char>,
    reason: Option<Seq<char>>,
) -> NeutronStatusSupportDisposition {
    if domain == "acl"@ && status == "not_requested"@ {
        NeutronStatusSupportDisposition::NotApplicable
    } else if status == "unsupported"@ || unsupported_reason(reason) {
        NeutronStatusSupportDisposition::Unsupported
    } else if resync_reason(reason) || ((domain == "attach"@ || domain == "acl"@) && status
        == "ready"@) {
        NeutronStatusSupportDisposition::Supported
    } else {
        NeutronStatusSupportDisposition::Unknown
    }
}

/// Tells whether what a domain asks for is supported.
pub fn status_v1_support_disposition(domain: &str, status: &str, reason: Option<&str>) -> (r:
    NeutronStatusSupportDisposition)
    ensures
        r == support_of(domain@, status@, reason.deep_view()),
{
    if text_eq(domain, "acl") && text_eq(status, "not_requested") {
        NeutronStatusSupportDisposition::NotApplicable
    } else if text_eq(status, "unsupported") || status_v1_reason_is_unsupported(reason) {
        NeutronStatusSupportDisposition::Unsupported
    } else if status_v1_reason_requires_full_resync(reason) || ((text_eq(domain, "attach")
        || text_eq(domain, "acl")) && text_eq(status, "ready")) {
        NeutronStatusSupportDisposition::Supported
    } else {
        NeutronStatusSupportDisposition::Unknown
    }
}

/// The domains that names stand for, where no name is blank and no two stand for one domain.
pub open spec fn unique_domains(names: Seq<Seq<char>>) -> Option<Seq<Seq<char>>> {
    if normal_domains(names).len() == names.len() {
        Some(normal_domains(names))
    } else {
        None
    }
}

/// Brings domain names into normal form, where none is lost by that.
pub fn status_v1_normalized_unique_domains(domains: &Vec<String>) -> (r: Option<Vec<String>>)
    ensures
        r.deep_view() == unique_domains(domains.deep_view()),
{
    let normal = normalize_managed_domains(domains);
    assert(normal.deep_view().len() == normal.len());
    assert(domains.deep_view().len() == domains.len());
    if normal.len() == domains.len() {
        Some(normal)
    } else {
        None
    }
}

/// The name under which a domain is reported: its own where it stands for none.
pub open spec fn evidence_name(name: Seq<char>) -> Seq<char> {
    if domain_name(name).len() > 0 {
        domain_name(name)
    } else {
        name
    }
}

/// The evidence on a domain.
pub open spec fn domain_evidence(domain: NeutronDomainStatusModel) -> DomainEvidenceModel {
    let name = evidence_name(domain.domain);
    DomainEvidenceModel {
        domain: name,
        status: if domain.status == "ready"@ {
            NeutronStatusDomainState::Ready
        } else if domain.status == "not_requested"@ {
            NeutronStatusDomainState::NotRequested
        } else if domain.status == "degraded"@ || domain.status == "unsupported"@ {
            NeutronStatusDomainState::Degraded
        } else {
            NeutronStatusDomainState::Blocked
        },
        reason: domain.reason,
        effective_action: named_action(domain.effective_action),
        support_disposition: support_of(name, domain.status, domain.reason),
    }
}

/// True when a domain that calls itself ready shows all that readiness takes.
pub open spec fn proves_ready(evidence: DomainEvidenceModel) -> bool {
    if evidence.domain == "acl"@ {
        evidence.effective_action == Some(NeutronStatusEffectiveAction::Enforce)
            && evidence.support_disposition == NeutronStatusSupportDisposition::Supported
    } else if evidence.domain == "attach"@ {
        evidence.effective_action is None && evidence.support_disposition
            == NeutronStatusSupportDisposition::Supported
    } else {
        false
    }
}

/// True when a domain that was not asked for is let through and nothing else.
pub open spec fn proves_not_requested(evidence: DomainEvidenceModel) -> bool {
    &&& evidence.domain == "acl"@
    &&& (evidence.effective_action == Some(NeutronStatusEffectiveAction::Bypass)
        || evidence.effective_action == Some(NeutronStatusEffectiveAction::NoOp))
    &&& evidence.support_disposition == NeutronStatusSupportDisposition::NotApplicable
}

/// True when a degraded domain is in a known end state.
pub open spec fn proves_terminal(evidence: DomainEvidenceModel) -> bool {
    &&& evidence.domain == "acl"@
    &&& (evidence.effective_action == Some(NeutronStatusEffectiveAction::Bypass)
        || evidence.effective_action == Some(NeutronStatusEffectiveAction::Unchanged))
}

/// What a domain allows to conclude.
pub open spec fn domain_class(domain: NeutronDomainStatusModel) -> StatusV1EvidenceClass {
    let evidence = domain_evidence(domain);
    if domain_name(domain.domain).len() == 0 || (domain.effective_action is Some
        && evidence.effective_action is None) {
        StatusV1EvidenceClass::Blocked
    } else if evidence.status == NeutronStatusDomainState::Ready {
        if proves_ready(evidence) {
            StatusV1EvidenceClass::Ready
        } else {
            StatusV1EvidenceClass::Blocked
        }
    } else if evidence.status == NeutronStatusDomainState::NotRequested {
        if proves_not_requested(evidence) {
            StatusV1EvidenceClass::Ready
        } else {
            StatusV1EvidenceClass::Blocked
        }
    } else if evidence.status == NeutronStatusDomainState::Degraded {
        if !proves_terminal(evidence) {
            StatusV1EvidenceClass::Blocked
        } else if resync_reason(domain.reason) {
            StatusV1EvidenceClass::FullResync
        } else {
            StatusV1EvidenceClass::TerminalDegraded
        }
    } else {
        StatusV1EvidenceClass::Blocked
    }
}

fn action_is(
    action: Option<NeutronStatusEffectiveAction>,
    wanted: NeutronStatusEffectiveAction,
) -> (r: bool)
    ensures
        r == (action == Some(wanted)),
{
    match action {
        Some(a) => a == wanted,
        None => false,
    }
}

/// Reports a domain and what it allows to conclude.
pub fn project_status_v1_domain(domain: &NeutronDomainStatus) -> (r: (
    NeutronStatusDomainEvidence,
    StatusV1EvidenceClass,
))
    ensures
        r.0.deep_view() == domain_evidence(domain.deep_view()),
        r.1 == domain_class(domain.deep_view()),
{
    let canonical = name_domain(domain.domain.as_str());
    let name_valid = !canonical.as_str().is_empty();
    let name = if name_valid {
        canonical
    } else {
        domain.domain.duplicate()
    };
    let action = status_v1_effective_action(as_text(&domain.effective_action));
    let action_valid = domain.effective_action.is_none() || action.is_some();
    let state = domain.status.as_str();
    let support = status_v1_support_disposition(name.as_str(), state, as_text(&domain.reason));
    let (status, class) = if text_eq(state, "ready") {
        let valid = if text_eq(name.as_str(), "acl") {
            action_is(action, NeutronStatusEffectiveAction::Enforce) && support
                == NeutronStatusSupportDisposition::Supported
        } else if text_eq(name.as_str(), "attach") {
            action.is_none() && support == NeutronStatusSupportDisposition::Supported
        } else {
            false
        };
        (
            NeutronStatusDomainState::Ready,
            if valid {
                StatusV1EvidenceClass::Ready
            } else {
                StatusV1EvidenceClass::Blocked
            },
        )
    } else if text_eq(state, "not_requested") {
        let valid = text_eq(name.as_str(), "acl") && (action_is(
            action,
            NeutronStatusEffectiveAction::Bypass,
        ) || action_is(action, NeutronStatusEffectiveAction::NoOp)) && support
            == NeutronStatusSupportDisposition::NotApplicable;
        (
            NeutronStatusDomainState::NotRequested,
            if valid {
                StatusV1EvidenceClass::Ready
            } else {
                StatusV1EvidenceClass::Blocked
            },
        )
    } else if text_eq(state, "degraded") || text_eq(state, "unsupported") {
        let terminal = text_eq(name.as_str(), "acl") && (action_is(
            action,
            NeutronStatusEffectiveAction::Bypass,
        ) || action_is(action, NeutronStatusEffectiveAction::Unchanged));
        let class = if !terminal {
            StatusV1EvidenceClass::Blocked
        } else if status_v1_reason_requires_full_resync(as_text(&domain.reason)) {
            StatusV1EvidenceClass::FullResync
        } else {
            StatusV1EvidenceClass::TerminalDegraded
        };
        (NeutronStatusDomainState::Degraded, class)
    } else {
        (NeutronStatusDomainState::Blocked, StatusV1EvidenceClass::Blocked)
    };
    let class = if !name_valid || !action_valid {
        StatusV1EvidenceClass::Blocked
    } else {
        class
    };
    (
        NeutronStatusDomainEvidence {
            domain: name,
            status,
            reason: domain.reason.duplicate(),
            effective_action: action,
            support_disposition: support,
        },
        class,
    )
}

/// The evidence on domains.
pub open spec fn domains_evidence(domains: Seq<NeutronDomainStatusModel>) -> Seq<
    DomainEvidenceModel,
> {
    domains.map_values(|domain: NeutronDomainStatusModel| domain_evidence(domain))
}

/// The names under which domains are reported.
pub open spec fn evidence_names(domains: Seq<NeutronDomainStatusModel>) -> Seq<Seq<char>> {
    domains.map_values(|domain: NeutronDomainStatusModel| evidence_name(domain.domain))
}

/// True when no name is blank and none occurs twice.
pub open spec fn names_sound(names: Seq<Seq<char>>) -> bool {
    &&& forall|i: int| 0 <= i < names.len() ==> trimmed(#[trigger] names[i]).len() > 0
    &&& names.no_duplicates()
}

/// The worst that the first `n` domains allow to conclude.
pub open spec fn worst_domain(
    domains: Seq<NeutronDomainStatusModel>,
    n: int,
) -> StatusV1EvidenceClass
    decreases n,
{
    if n <= 0 {
        StatusV1EvidenceClass::Ready
    } else {
        worse_class(worst_domain(domains, n - 1), domain_class(domains[n - 1]))
    }
}

/// What the domains of a port allow to conclude.
pub open spec fn row_class(status: NeutronPortStatusModel) -> StatusV1EvidenceClass {
    if names_sound(evidence_names(status.domains)) {
        worst_domain(status.domains, status.domains.len() as int)
    } else {
        StatusV1EvidenceClass::Blocked
    }
}

/// The evidence on a port with the given domains.
pub open spec fn port_evidence(
    status: NeutronPortStatusModel,
    managed_domains: Seq<Seq<char>>,
    domains: Seq<DomainEvidenceModel>,
) -> PortEvidenceModel {
    PortEvidenceModel {
        port_id: status.port_id,
        ifname: status.ifname,
        generation: status.generation,
        desired_hash: status.desired_hash,
        status: status.status,
        reason: status.reason,
        managed_domains,
        domains,
    }
}

/// The report on a port before it is held against what is managed.
pub struct ProjectedStatusV1PortRow {
    pub evidence: NeutronStatusPortEvidence,
    pub domain_class: StatusV1EvidenceClass,
    pub domain_names: OrderedMap<String, bool>,
    pub domains_valid: bool,
}

impl ProjectedStatusV1PortRow {
    /// True when this is the report on a port.
    pub open spec fn reports(&self, status: NeutronPortStatusModel) -> bool {
        &&& self.evidence.deep_view() == port_evidence(
            status,
            status.managed_domains,
            domains_evidence(status.domains),
        )
        &&& self.domain_class == row_class(status)
        &&& self.domain_names.deep_view().dom() == evidence_names(status.domains).to_set()
        &&& self.domains_valid == names_sound(evidence_names(status.domains))
    }
}

proof fn lemma_names_step(names: Seq<Seq<char>>, i: int)
    requires
        0 <= i < names.len(),
    ensures
        names_sound(names.take(i + 1)) == (names_sound(names.take(i)) && trimmed(names[i]).len() > 0
            && !names.take(i).to_set().contains(names[i])),
        names.take(i + 1).to_set() == names.take(i).to_set().insert(names[i]),
{
    let before = names.take(i);
    let after = names.take(i + 1);
    assert(after =~= before.push(names[i]));
    assert forall|name: Seq<char>| #[trigger] after.to_set().contains(name) <==> before.to_set().insert(
        names[i],
    ).contains(name) by {
        if after.contains(name) {
            let j = choose|j: int| 0 <= j < after.len() && after[j] == name;
            if j < i {
                assert(before[j] == name);
            }
        }
        if before.contains(name) {
            let j = choose|j: int| 0 <= j < before.len() && before[j] == name;
            assert(after[j] == name);
        }
        assert(after[i] == names[i]);
    }
    assert(after.to_set() =~= before.to_set().insert(names[i]));
    if names_sound(after) {
        assert forall|j: int| 0 <= j < before.len() implies trimmed(#[trigger] before[j]).len()
            > 0 by {
            assert(after[j] == before[j]);
        }
        assert(after[i] == names[i]);
        if before.contains(names[i]) {
            let j = choose|j: int| 0 <= j < before.len() && before[j] == names[i];
            assert(after[j] == after[i]);
        }
        assert forall|j: int, k: int| 0 <= j < before.len() && 0 <= k < before.len() && j
            != k implies before[j] != before[k] by {
            assert(after[j] == before[j] && after[k] == before[k]);
        }
    }
    if names_sound(before) && trimmed(names[i]).len() > 0 && !before.to_set().contains(names[i]) {
        assert forall|j: int, k: int| 0 <= j < after.len() && 0 <= k < after.len() && j
            != k implies after[j] != after[k] by {
            if j < i && k < i {
                assert(before[j] != before[k]);
            } else if j < i {
                assert(before.contains(before[j]));
            } else {
                assert(before.contains(before[k]));
            }
        }
        assert forall|j: int| 0 <= j < after.len() implies trimmed(#[trigger] after[j]).len()
            > 0 by {
            if j < i {
                assert(before[j] == after[j]);
            }
        }
    }
}

/// Reports a port with all its domains.
pub fn project_status_v1_port_row(status: &NeutronPortStatus) -> (r: ProjectedStatusV1PortRow)
    ensures
        r.reports(status.deep_view()),
{
    let ghost models = status.domains.deep_view();
    let ghost names = evidence_names(models);
    let ghost wanted = domains_evidence(models);
    let mut class = StatusV1EvidenceClass::Ready;
    let mut domain_names: OrderedMap<String, bool> = OrderedMap::new();
    let mut domains_valid = true;
    let mut domains: Vec<NeutronStatusDomainEvidence> = Vec::new();
    let mut i: usize = 0;
    assert(domains.deep_view() =~= wanted.take(0));
    assert(domain_names.deep_view().dom() =~= names.take(0).to_set());
    while i < status.domains.len()
        invariant
            i <= status.domains.len(),
            models == status.domains.deep_view(),
            names == evidence_names(models),
            wanted == domains_evidence(models),
            domains.deep_view() == wanted.take(i as int),
            domain_names.deep_view().dom() == names.take(i as int).to_set(),
            domains_valid == names_sound(names.take(i as int)),
            class == worst_domain(models, i as int),
        decreases status.domains.len() - i,
    {
        assert(models[i as int] == status.domains@[i as int].deep_view());
        let (evidence, evidence_class) = project_status_v1_domain(&status.domains[i]);
        proof {
            lemma_names_step(names, i as int);
        }
        if trim(evidence.domain.as_str()).is_empty() || domain_names.contains_key(
            &evidence.domain,
        ) {
            domains_valid = false;
        }
        let ghost before_names = domain_names.deep_view().dom();
        domain_names.insert(evidence.domain.duplicate(), true);
        assert(domain_names.deep_view().dom() =~= before_names.insert(names[i as int]));
        class = worse(class, evidence_class);
        let ghost before = domains.deep_view();
        let ghost pushed = evidence.deep_view();
        domains.push(evidence);
        assert(domains.deep_view() =~= before.push(pushed));
        assert(wanted.take(i + 1) =~= wanted.take(i as int).push(wanted[i as int]));
        i += 1;
    }
    assert(wanted.take(i as int) =~= wanted);
    assert(names.take(i as int) =~= names);
    ProjectedStatusV1PortRow {
        evidence: NeutronStatusPortEvidence {
            port_id: status.port_id.duplicate(),
            ifname: status.ifname.duplicate(),
            generation: status.generation,
            desired_hash: status.desired_hash.duplicate(),
            status: status.status.duplicate(),
            reason: status.reason.duplicate(),
            managed_domains: status.managed_domains.duplicate(),
            domains,
        },
        domain_class: if domains_valid {
            class
        } else {
            StatusV1EvidenceClass::Blocked
        },
        domain_names,
        domains_valid,
    }
}

/// What a status allows to conclude, given what its domains do and the evidence on them: the
/// status has to agree with its domains.
pub open spec fn top_level_class(
    status: NeutronPortStatusModel,
    class: StatusV1EvidenceClass,
    domains: Seq<DomainEvidenceModel>,
) -> StatusV1EvidenceClass {
    if status.status == "ready"@ && class == StatusV1EvidenceClass::Ready {
        StatusV1EvidenceClass::Ready
    } else if status.status == "not_requested"@ && domains.len() == 1 && domains[0].status
        == NeutronStatusDomainState::NotRequested && proves_not_requested(domains[0]) {
        StatusV1EvidenceClass::Ready
    } else if (status.status == "degraded"@ || status.status == "unsupported"@) && (class
        == StatusV1EvidenceClass::TerminalDegraded || class == StatusV1EvidenceClass::FullResync) {
        if class == StatusV1EvidenceClass::FullResync || resync_reason(status.reason) {
            StatusV1EvidenceClass::FullResync
        } else {
            StatusV1EvidenceClass::TerminalDegraded
        }
    } else {
        StatusV1EvidenceClass::Blocked
    }
}

/// What a port allows to conclude.
pub open spec fn port_class(status: NeutronPortStatusModel) -> StatusV1EvidenceClass {
    top_level_class(status, row_class(status), domains_evidence(status.domains))
}

/// Tells what a port allows to conclude.
pub fn status_v1_port_top_level_class(
    status: &NeutronPortStatus,
    projected: &ProjectedStatusV1PortRow,
) -> (r: StatusV1EvidenceClass)
    ensures
        r == top_level_class(
            status.deep_view(),
            projected.domain_class,
            projected.evidence.deep_view().domains,
        ),
{
    let state = status.status.as_str();
    if text_eq(state, "ready") && projected.domain_class == StatusV1EvidenceClass::Ready {
        return StatusV1EvidenceClass::Ready;
    }
    assert(projected.evidence.domains.deep_view().len() == projected.evidence.domains.len());
    if text_eq(state, "not_requested") && projected.evidence.domains.len() == 1 {
        let domain = &projected.evidence.domains[0];
        assert(domain.deep_view() == projected.evidence.domains.deep_view()[0]);
        if text_eq(domain.domain.as_str(), "acl") && domain.status
            == NeutronStatusDomainState::NotRequested && (action_is(
            domain.effective_action,
            NeutronStatusEffectiveAction::Bypass,
        ) || action_is(domain.effective_action, NeutronStatusEffectiveAction::NoOp))
            && domain.support_disposition == NeutronStatusSupportDisposition::NotApplicable {
            return StatusV1EvidenceClass::Ready;
        }
    }
    let settled = match projected.domain_class {
        StatusV1EvidenceClass::TerminalDegraded | StatusV1EvidenceClass::FullResync => true,
        _ => false,
    };
    if (text_eq(state, "degraded") || text_eq(state, "unsupported")) && settled {
        if projected.domain_class == StatusV1EvidenceClass::FullResync
            || status_v1_reason_requires_full_resync(as_text(&status.reason)) {
            StatusV1EvidenceClass::FullResync
        } else {
            StatusV1EvidenceClass::TerminalDegraded
        }
    } else {
        StatusV1EvidenceClass::Blocked
    }
}

/// True when a status may go without an interface, given the evidence on its domains: filtering
/// alone, not supported and let through.
pub open spec fn empty_ifname_allowed(
    status: NeutronPortStatusModel,
    status_domains: Seq<Seq<char>>,
    domains: Seq<DomainEvidenceModel>,
) -> bool {
    &&& status.status == "degraded"@ || status.status == "unsupported"@
    &&& status_domains.len() == 1
    &&& status_domains[0] == "acl"@
    &&& domains.len() == 1
    &&& domains[0].domain == "acl"@
    &&& domains[0].status == NeutronStatusDomainState::Degraded
    &&& domains[0].effective_action == Some(NeutronStatusEffectiveAction::Bypass)
    &&& domains[0].support_disposition == NeutronStatusSupportDisposition::Unsupported
}

/// True when a port may be reported without an interface.
pub open spec fn may_lack_interface(
    status: NeutronPortStatusModel,
    status_domains: Seq<Seq<char>>,
) -> bool {
    empty_ifname_allowed(status, status_domains, domains_evidence(status.domains))
}

/// Whether a port may be reported without an interface.
pub fn status_v1_allows_empty_ifname(
    status: &NeutronPortStatus,
    projected: &ProjectedStatusV1PortRow,
    status_domains: &Vec<String>,
) -> (r: bool)
    ensures
        r == empty_ifname_allowed(
            status.deep_view(),
            status_domains.deep_view(),
            projected.evidence.deep_view().domains,
        ),
{
    let state = status.status.as_str();
    assert(projected.evidence.domains.deep_view().len() == projected.evidence.domains.len());
    assert(status_domains.deep_view().len() == status_domains.len());
    if !(text_eq(state, "degraded") || text_eq(state, "unsupported")) || status_domains.len() != 1
        || projected.evidence.domains.len() != 1 {
        return false;
    }
    assert(status_domains.deep_view()[0] == status_domains@[0]@);
    let acl = &projected.evidence.domains[0];
    assert(acl.deep_view() == projected.evidence.domains.deep_view()[0]);
    text_eq(status_domains[0].as_str(), "acl") && text_eq(acl.domain.as_str(), "acl") && acl.status
        == NeutronStatusDomainState::Degraded && action_is(
        acl.effective_action,
        NeutronStatusEffectiveAction::Bypass,
    ) && acl.support_disposition == NeutronStatusSupportDisposition::Unsupported
}

/// True when a hash is given and not blank.
pub open spec fn hash_given(hash: Option<Seq<char>>) -> bool {
    match hash {
        Some(h) => trimmed(h).len() > 0,
        None => false,
    }
}

/// Whether a hash is given and not blank.
pub fn has_hash(hash: &Option<String>) -> (r: bool)
    ensures
        r == hash_given(hash.deep_view()),
{
    match hash {
        Some(h) => !trim(h.as_str()).is_empty(),
        None => false,
    }
}

/// True when a domain of a detached port is detached as well.
pub open spec fn domain_detached(
    domain: NeutronDomainStatusModel,
    managed: Seq<Seq<char>>,
) -> bool {
    &&& domain_name(domain.domain).len() > 0
    &&& managed.contains(domain_name(domain.domain))
    &&& domain.status == "detached"@
    &&& domain.effective_action is None
}

/// The evidence on a domain of a detached port.
pub open spec fn detached_evidence(domain: NeutronDomainStatusModel) -> DomainEvidenceModel {
    DomainEvidenceModel {
        domain: domain_name(domain.domain),
        status: NeutronStatusDomainState::NotRequested,
        reason: domain.reason,
        effective_action: Some(NeutronStatusEffectiveAction::Cleanup),
        support_disposition: NeutronStatusSupportDisposition::NotApplicable,
    }
}

/// The domains that statuses name.
pub open spec fn detached_names(domains: Seq<NeutronDomainStatusModel>) -> Seq<Seq<char>> {
    domains.map_values(|domain: NeutronDomainStatusModel| domain_name(domain.domain))
}

/// True when a status without a managed port is that of a port that was detached.
pub open spec fn is_tombstone(
    runtime: NeutronRuntimeStateModel,
    key: Seq<char>,
    status: NeutronPortStatusModel,
) -> bool {
    &&& key.len() > 0
    &&& key == status.port_id
    &&& status.ifname.len() > 0
    &&& status.status == "detached"@
    &&& 0 < status.generation <= runtime.applied_generation
    &&& hash_given(status.desired_hash)
    &&& status.generation == runtime.applied_generation ==> runtime.applied_desired_hash
        == status.desired_hash
    &&& unique_domains(status.managed_domains) is Some
    &&& detached_names(status.domains).no_duplicates()
    &&& forall|i: int|
        0 <= i < status.domains.len() ==> domain_detached(
            #[trigger] status.domains[i],
            normal_domains(status.managed_domains),
        )
}

/// The report on a port that was detached.
pub open spec fn tombstone(
    runtime: NeutronRuntimeStateModel,
    key: Seq<char>,
    status: NeutronPortStatusModel,
) -> Option<PortEvidenceModel> {
    if is_tombstone(runtime, key, status) {
        Some(
            port_evidence(
                status,
                normal_domains(status.managed_domains),
                status.domains.map_values(
                    |domain: NeutronDomainStatusModel| detached_evidence(domain),
                ),
            ),
        )
    } else {
        None
    }
}

fn detached_domains(domains: &Vec<NeutronDomainStatus>, managed: &Vec<String>) -> (r: Option<
    Vec<NeutronStatusDomainEvidence>,
>)
    ensures
        match r {
            Some(list) => {
                &&& detached_names(domains.deep_view()).no_duplicates()
                &&& forall|i: int|
                    0 <= i < domains.len() ==> domain_detached(
                        #[trigger] domains.deep_view()[i],
                        managed.deep_view(),
                    )
                &&& list.deep_view() == domains.deep_view().map_values(
                    |domain: NeutronDomainStatusModel| detached_evidence(domain),
                )
            },
            None => !detached_names(domains.deep_view()).no_duplicates() || exists|i: int|
                0 <= i < domains.len() && !domain_detached(
                    #[trigger] domains.deep_view()[i],
                    managed.deep_view(),
                ),
        },
{
    let ghost models = domains.deep_view();
    let ghost names = detached_names(models);
    let ghost wanted = models.map_values(
        |domain: NeutronDomainStatusModel| detached_evidence(domain),
    );
    let mut seen: OrderedMap<String, bool> = OrderedMap::new();
    let mut r: Vec<NeutronStatusDomainEvidence> = Vec::new();
    let mut i: usize = 0;
    assert(r.deep_view() =~= wanted.take(0));
    assert(seen.deep_view().dom() =~= names.take(0).to_set());
    while i < domains.len()
        invariant
            i <= domains.len(),
            models == domains.deep_view(),
            names == detached_names(models),
            wanted == models.map_values(
                |domain: NeutronDomainStatusModel| detached_evidence(domain),
            ),
            r.deep_view() == wanted.take(i as int),
            seen.deep_view().dom() == names.take(i as int).to_set(),
            names.take(i as int).no_duplicates(),
            forall|j: int|
                0 <= j < i ==> domain_detached(#[trigger] models[j], managed.deep_view()),
        ensures
            i == domains.len(),
        decreases domains.len() - i,
    {
        let domain = &domains[i];
        assert(models[i as int] == domain.deep_view());
        let name = name_domain(domain.domain.as_str());
        let repeated = seen.contains_key(&name);
        let sound = !name.as_str().is_empty() && list_contains(managed, &name) && text_eq(
            domain.status.as_str(),
            "detached",
        ) && domain.effective_action.is_none();
        assert(sound == domain_detached(models[i as int], managed.deep_view()));
        if repeated || !sound {
            proof {
                if repeated {
                    let part = names.take(i as int);
                    assert(part.contains(name@));
                    let j = choose|j: int| 0 <= j < part.len() && part[j] == name@;
                    assert(names[j] == names[i as int]);
                }
            }
            return None;
        }
        let ghost before_seen = seen.deep_view().dom();
        seen.insert(name.duplicate(), true);
        let evidence = NeutronStatusDomainEvidence {
            domain: name,
            status: NeutronStatusDomainState::NotRequested,
            reason: domain.reason.duplicate(),
            effective_action: Some(NeutronStatusEffectiveAction::Cleanup),
            support_disposition: NeutronStatusSupportDisposition::NotApplicable,
        };
        let ghost before = r.deep_view();
        let ghost pushed = evidence.deep_view();
        r.push(evidence);
        proof {
            assert(r.deep_view() =~= before.push(pushed));
            assert(wanted.take(i + 1) =~= wanted.take(i as int).push(wanted[i as int]));
            lemma_distinct_step(names, i as int);
            assert(seen.deep_view().dom() =~= before_seen.insert(names[i as int]));
        }
        i += 1;
    }
    assert(wanted.take(i as int) =~= wanted);
    assert(names.take(i as int) =~= names);
    Some(r)
}

proof fn lemma_distinct_step(names: Seq<Seq<char>>, i: int)
    requires
        0 <= i < names.len(),
        names.take(i).no_duplicates(),
        !names.take(i).to_set().contains(names[i]),
    ensures
        names.take(i + 1).no_duplicates(),
        names.take(i + 1).to_set() == names.take(i).to_set().insert(names[i]),
{
    lemma_names_step(names, i);
    let before = names.take(i);
    let after = names.take(i + 1);
    assert forall|j: int, k: int| 0 <= j < after.len() && 0 <= k < after.len() && j
        != k implies after[j] != after[k] by {
        if j < i && k < i {
            assert(before[j] != before[k]);
        } else if j < i {
            assert(before.contains(before[j]));
        } else {
            assert(before.contains(before[k]));
        }
    }
}

/// Reports a port that was detached.
pub fn project_status_v1_detached_tombstone(
    runtime: &NeutronRuntimeState,
    status_map_key: &str,
    status: &NeutronPortStatus,
) -> (r: Option<NeutronStatusPortEvidence>)
    ensures
        r.deep_view() == tombstone(runtime.deep_view(), status_map_key@, status.deep_view()),
{
    if status_map_key.is_empty() || !text_eq(status_map_key, status.port_id.as_str())
        || status.ifname.as_str().is_empty() || !text_eq(status.status.as_str(), "detached")
        || status.generation == 0 || status.generation > runtime.applied_generation || !has_hash(
        &status.desired_hash,
    ) {
        return None;
    }
    if status.generation == runtime.applied_generation && !runtime.applied_desired_hash.same(
        &status.desired_hash,
    ) {
        return None;
    }
    let managed_domains = match status_v1_normalized_unique_domains(&status.managed_domains) {
        Some(domains) => domains,
        None => {
            return None;
        },
    };
    let domains = match detached_domains(&status.domains, &managed_domains) {
        Some(domains) => domains,
        None => {
            return None;
        },
    };
    Some(
        NeutronStatusPortEvidence {
            port_id: status.port_id.duplicate(),
            ifname: status.ifname.duplicate(),
            generation: status.generation,
            desired_hash: status.desired_hash.duplicate(),
            status: status.status.duplicate(),
            reason: status.reason.duplicate(),
            managed_domains,
            domains,
        },
    )
}

/// True when the status of a managed port can be held to be that of the port.
pub open spec fn row_sound(
    runtime: NeutronRuntimeStateModel,
    key: Seq<char>,
    managed: ManagedNeutronPortModel,
    status: NeutronPortStatusModel,
) -> bool {
    let names = evidence_names(status.domains);
    let domains = normal_domains(status.managed_domains);
    &&& key.len() > 0
    &&& key == managed.port_id
    &&& status.port_id == key
    &&& names_sound(names)
    &&& 0 < status.generation <= runtime.applied_generation
    &&& hash_given(status.desired_hash)
    &&& unique_domains(managed.managed_domains) is Some
    &&& unique_domains(managed.managed_domains) == unique_domains(status.managed_domains)
    &&& forall|i: int| 0 <= i < domains.len() ==> names.contains(#[trigger] domains[i])
    &&& forall|i: int|
        0 <= i < names.len() ==> #[trigger] names[i] == "attach"@ || domains.contains(names[i])
    &&& managed.ifname == status.ifname
    &&& managed.ifname.len() > 0 || may_lack_interface(status, domains)
    &&& status.generation == runtime.applied_generation ==> status.desired_hash
        == runtime.applied_desired_hash
}

/// The evidence on the domains of a port that are managed.
pub open spec fn managed_evidence(
    domains: Seq<DomainEvidenceModel>,
    managed: Seq<Seq<char>>,
) -> Seq<DomainEvidenceModel> {
    domains.filter(|domain: DomainEvidenceModel| managed.contains(domain.domain))
}

/// The report on a managed port, where its status is sound.
pub open spec fn managed_row(
    runtime: NeutronRuntimeStateModel,
    key: Seq<char>,
    managed: ManagedNeutronPortModel,
    status: NeutronPortStatusModel,
) -> Option<PortEvidenceModel> {
    if row_sound(runtime, key, managed, status) {
        Some(
            port_evidence(
                status,
                normal_domains(status.managed_domains),
                managed_evidence(
                    domains_evidence(status.domains),
                    normal_domains(status.managed_domains),
                ),
            ),
        )
    } else {
        None
    }
}

fn same_names(
    names: &OrderedMap<String, bool>,
    domains: &Vec<String>,
    Ghost(reported): Ghost<Seq<Seq<char>>>,
) -> (r: bool)
    requires
        names.deep_view().dom() == reported.to_set(),
    ensures
        r == ((forall|i: int|
            0 <= i < domains.len() ==> reported.contains(#[trigger] domains.deep_view()[i])) && (
        forall|i: int|
            0 <= i < reported.len() ==> #[trigger] reported[i] == "attach"@
                || domains.deep_view().contains(reported[i]))),
{
    let ghost models = domains.deep_view();
    let mut i: usize = 0;
    while i < domains.len()
        invariant
            i <= domains.len(),
            models == domains.deep_view(),
            names.deep_view().dom() == reported.to_set(),
            forall|j: int| 0 <= j < i ==> reported.contains(#[trigger] models[j]),
        ensures
            i == domains.len(),
        decreases domains.len() - i,
    {
        assert(models[i as int] == domains@[i as int]@);
        if !names.contains_key(&domains[i]) {
            assert(!reported.contains(models[i as int]));
            return false;
        }
        i += 1;
    }
    let ghost keys = in_order::<String>(names.deep_view().dom());
    let n: usize = names.len();
    let mut k: usize = 0;
    while k < n
        invariant
            k <= n,
            n == keys.len(),
            models == domains.deep_view(),
            keys == in_order::<String>(names.deep_view().dom()),
            names.deep_view().dom() == reported.to_set(),
            forall|j: int|
                0 <= j < k ==> #[trigger] keys[j] == "attach"@ || models.contains(keys[j]),
        ensures
            k == n,
        decreases n - k,
    {
        let name = names.key_at(k);
        if !text_eq(name.as_str(), "attach") && !list_contains(domains, name) {
            proof {
                assert(reported.contains(name@));
                let j = choose|j: int| 0 <= j < reported.len() && reported[j] == name@;
                assert(reported[j] == name@);
            }
            return false;
        }
        k += 1;
    }
    proof {
        assert forall|j: int| 0 <= j < reported.len() implies #[trigger] reported[j] == "attach"@
            || models.contains(reported[j]) by {
            assert(reported.to_set().contains(reported[j]));
            assert(keys.contains(reported[j]));
            let m = choose|m: int| 0 <= m < keys.len() && keys[m] == reported[j];
            assert(keys[m] == reported[j]);
        }
    }
    true
}

fn keep_managed(domains: &Vec<NeutronStatusDomainEvidence>, managed: &Vec<String>) -> (r: Vec<
    NeutronStatusDomainEvidence,
>)
    ensures
        r.deep_view() == managed_evidence(domains.deep_view(), managed.deep_view()),
{
    let ghost models = domains.deep_view();
    let ghost p = |domain: DomainEvidenceModel| managed.deep_view().contains(domain.domain);
    let mut r: Vec<NeutronStatusDomainEvidence> = Vec::new();
    let mut i: usize = 0;
    assert(r.deep_view() =~= models.take(0).filter(p)) by {
        reveal(Seq::filter);
    }
    while i < domains.len()
        invariant
            i <= domains.len(),
            models == domains.deep_view(),
            p == (|domain: DomainEvidenceModel| managed.deep_view().contains(domain.domain)),
            r.deep_view() == models.take(i as int).filter(p),
        decreases domains.len() - i,
    {
        assert(models[i as int] == domains@[i as int].deep_view());
        proof {
            lemma_filter_step(models, p, i as int);
        }
        if list_contains(managed, &domains[i].domain) {
            let ghost before = r.deep_view();
            let kept = domains[i].duplicate();
            r.push(kept);
            assert(r.deep_view() =~= before.push(kept.deep_view()));
        }
        i += 1;
    }
    assert(models.take(i as int) =~= models);
    r
}

fn project_managed_row(
    runtime: &NeutronRuntimeState,
    key: &String,
    managed: &ManagedNeutronPort,
    status: &NeutronPortStatus,
    projected: ProjectedStatusV1PortRow,
) -> (r: Option<NeutronStatusPortEvidence>)
    requires
        projected.reports(status.deep_view()),
    ensures
        r.deep_view() == managed_row(
            runtime.deep_view(),
            key@,
            managed.deep_view(),
            status.deep_view(),
        ),
{
    if key.as_str().is_empty() || !key.same(&managed.port_id) || !status.port_id.same(key)
        || !projected.domains_valid || status.generation == 0 || status.generation
        > runtime.applied_generation || !has_hash(&status.desired_hash) {
        return None;
    }
    let managed_domains = match status_v1_normalized_unique_domains(&managed.managed_domains) {
        Some(domains) => domains,
        None => {
            return None;
        },
    };
    let status_domains = match status_v1_normalized_unique_domains(&status.managed_domains) {
        Some(domains) => domains,
        None => {
            return None;
        },
    };
    if !managed_domains.same(&status_domains) {
        return None;
    }
    let ghost reported = evidence_names(status.deep_view().domains);
    if !same_names(&projected.domain_names, &status_domains, Ghost(reported)) {
        assert(!row_sound(
            runtime.deep_view(),
            key@,
            managed.deep_view(),
            status.deep_view(),
        )) by {
            assert(status_domains.deep_view().len() == status_domains.len());
        }
        return None;
    }
    if !managed.ifname.same(&status.ifname) || (managed.ifname.as_str().is_empty()
        && !status_v1_allows_empty_ifname(status, &projected, &status_domains)) {
        return None;
    }
    if status.generation == runtime.applied_generation && !status.desired_hash.same(
        &runtime.applied_desired_hash,
    ) {
        return None;
    }
    let domains = keep_managed(&projected.evidence.domains, &status_domains);
    assert(status_domains.deep_view().len() == status_domains.len());
    Some(
        NeutronStatusPortEvidence {
            port_id: status.port_id.duplicate(),
            ifname: status.ifname.duplicate(),
            generation: status.generation,
            desired_hash: status.desired_hash.duplicate(),
            status: status.status.duplicate(),
            reason: status.reason.duplicate(),
            managed_domains: status_domains,
            domains,
        },
    )
}

/// The report on the port with the given identity, if there is one.
pub open spec fn row_at(runtime: NeutronRuntimeStateModel, key: Seq<char>) -> Option<
    PortEvidenceModel,
> {
    if !runtime.port_statuses.dom().contains(key) {
        None
    } else if runtime.ports.dom().contains(key) {
        managed_row(runtime, key, runtime.ports[key], runtime.port_statuses[key])
    } else {
        tombstone(runtime, key, runtime.port_statuses[key])
    }
}

/// The reports on all ports, in order.
pub open spec fn reported_rows(runtime: NeutronRuntimeStateModel) -> Seq<PortEvidenceModel> {
    in_order::<String>(runtime.port_statuses.dom()).filter(
        |key: Seq<char>| row_at(runtime, key) is Some,
    ).map_values(|key: Seq<char>| row_at(runtime, key)->0)
}

/// What the port with the given identity allows to conclude.
pub open spec fn class_at(
    runtime: NeutronRuntimeStateModel,
    key: Seq<char>,
) -> StatusV1EvidenceClass {
    if row_at(runtime, key) is None {
        StatusV1EvidenceClass::Blocked
    } else if runtime.ports.dom().contains(key) {
        port_class(runtime.port_statuses[key])
    } else {
        StatusV1EvidenceClass::Ready
    }
}

/// The worst that the first `n` of the given ports allow to conclude.
pub open spec fn worst_port(
    runtime: NeutronRuntimeStateModel,
    keys: Seq<Seq<char>>,
    n: int,
) -> StatusV1EvidenceClass
    decreases n,
{
    if n <= 0 {
        StatusV1EvidenceClass::Ready
    } else {
        worse_class(worst_port(runtime, keys, n - 1), class_at(runtime, keys[n - 1]))
    }
}

/// What all ports together allow to conclude.
pub open spec fn overall_class(runtime: NeutronRuntimeStateModel) -> StatusV1EvidenceClass {
    let ports = in_order::<String>(runtime.ports.dom());
    let statuses = in_order::<String>(runtime.port_statuses.dom());
    worse_class(
        worst_port(runtime, ports, ports.len() as int),
        worst_port(runtime, statuses, statuses.len() as int),
    )
}

fn project_row(runtime: &NeutronRuntimeState, key: &String) -> (r: (
    Option<NeutronStatusPortEvidence>,
    StatusV1EvidenceClass,
))
    ensures
        r.0.deep_view() == row_at(runtime.deep_view(), key@),
        r.1 == class_at(runtime.deep_view(), key@),
{
    let status = match runtime.port_statuses.get(key) {
        Some(status) => status,
        None => {
            return (None, StatusV1EvidenceClass::Blocked);
        },
    };
    match runtime.ports.get(key) {
        Some(managed) => {
            let projected = project_status_v1_port_row(status);
            let class = status_v1_port_top_level_class(status, &projected);
            match project_managed_row(runtime, key, managed, status, projected) {
                Some(row) => (Some(row), class),
                None => (None, StatusV1EvidenceClass::Blocked),
            }
        },
        None => match project_status_v1_detached_tombstone(runtime, key.as_str(), status) {
            Some(row) => (Some(row), StatusV1EvidenceClass::Ready),
            None => (None, StatusV1EvidenceClass::Blocked),
        },
    }
}

/// Reports all ports and what they allow to conclude together.
pub fn project_status_v1_ports(runtime: &NeutronRuntimeState) -> (r: (
    Vec<NeutronStatusPortEvidence>,
    StatusV1EvidenceClass,
))
    ensures
        r.0.deep_view() == reported_rows(runtime.deep_view()),
        r.1 == overall_class(runtime.deep_view()),
{
    let ghost model = runtime.deep_view();
    let ghost ports = in_order::<String>(model.ports.dom());
    let n: usize = runtime.ports.len();
    let mut managed_class = StatusV1EvidenceClass::Ready;
    let mut i: usize = 0;
    while i < n
        invariant
            i <= n,
            n == ports.len(),
            model == runtime.deep_view(),
            ports == in_order::<String>(runtime.ports.deep_view().dom()),
            managed_class == worst_port(model, ports, i as int),
        decreases n - i,
    {
        let (_, class) = project_row(runtime, runtime.ports.key_at(i));
        managed_class = worse(managed_class, class);
        i += 1;
    }
    let ghost keys = in_order::<String>(model.port_statuses.dom());
    let ghost p = |key: Seq<char>| row_at(model, key) is Some;
    let ghost f = |key: Seq<char>| row_at(model, key)->0;
    let m: usize = runtime.port_statuses.len();
    let mut status_class = StatusV1EvidenceClass::Ready;
    let mut rows: Vec<NeutronStatusPortEvidence> = Vec::new();
    let mut k: usize = 0;
    assert(keys.take(0).filter(p) =~= Seq::empty()) by {
        reveal(Seq::filter);
    }
    assert(rows.deep_view() =~= keys.take(0).filter(p).map_values(f));
    while k < m
        invariant
            k <= m,
            m == keys.len(),
            model == runtime.deep_view(),
            keys == in_order::<String>(runtime.port_statuses.deep_view().dom()),
            p == (|key: Seq<char>| row_at(model, key) is Some),
            f == (|key: Seq<char>| row_at(model, key)->0),
            rows.deep_view() == keys.take(k as int).filter(p).map_values(f),
            status_class == worst_port(model, keys, k as int),
        decreases m - k,
    {
        proof {
            lemma_filter_step(keys, p, k as int);
        }
        let (row, class) = project_row(runtime, runtime.port_statuses.key_at(k));
        status_class = worse(status_class, class);
        match row {
            Some(row) => {
                let ghost before = rows.deep_view();
                let ghost pushed = row.deep_view();
                rows.push(row);
                proof {
                    assert(p(keys[k as int]));
                    assert(rows.deep_view() =~= before.push(pushed));
                    assert(keys.take(k + 1).filter(p).map_values(f) =~= before.push(
                        f(keys[k as int]),
                    ));
                }
            },
            None => {
                assert(!p(keys[k as int]));
            },
        }
        k += 1;
    }
    assert(keys.take(k as int) =~= keys);
    (rows, worse(managed_class, status_class))
}

/// True when a pending generation says of itself all that recovering it takes.
pub open spec fn pending_identity(runtime: NeutronRuntimeStateModel) -> bool {
    match runtime.pending_generation {
        None => false,
        Some(pending) => {
            &&& pending > 0
            &&& runtime.accepted_generation == runtime.applied_generation
                || runtime.accepted_generation == pending
            &&& pending >= runtime.applied_generation
            &&& hash_given(runtime.desired_hash)
            &&& runtime.applied_generation == 0 || hash_given(runtime.applied_desired_hash)
            &&& pending == runtime.applied_generation ==> runtime.desired_hash
                == runtime.applied_desired_hash
        },
    }
}

/// Whether a pending generation says of itself all that recovering it takes.
pub fn status_v1_has_complete_pending_identity(runtime: &NeutronRuntimeState) -> (r: bool)
    ensures
        r == pending_identity(runtime.deep_view()),
{
    match runtime.pending_generation {
        None => false,
        Some(pending) => pending > 0 && (runtime.accepted_generation == runtime.applied_generation
            || runtime.accepted_generation == pending) && pending >= runtime.applied_generation
            && has_hash(&runtime.desired_hash) && (runtime.applied_generation == 0 || has_hash(
            &runtime.applied_desired_hash,
        )) && (pending != runtime.applied_generation || runtime.desired_hash.same(
            &runtime.applied_desired_hash,
        )),
    }
}

/// True when the accepted state is the applied one and nothing is pending.
pub open spec fn classified_identity(runtime: NeutronRuntimeStateModel) -> bool {
    &&& runtime.pending_generation is None
    &&& runtime.accepted_generation == runtime.applied_generation
    &&& runtime.desired_hash == runtime.applied_desired_hash
    &&& if runtime.applied_generation == 0 {
        runtime.applied_desired_hash is None
    } else {
        hash_given(runtime.applied_desired_hash)
    }
}

/// Whether the accepted state is the applied one and nothing is pending.
pub fn status_v1_has_classified_identity(runtime: &NeutronRuntimeState) -> (r: bool)
    ensures
        r == classified_identity(runtime.deep_view()),
{
    runtime.pending_generation.is_none() && runtime.accepted_generation
        == runtime.applied_generation && runtime.desired_hash.same(&runtime.applied_desired_hash)
        && if runtime.applied_generation == 0 {
        runtime.desired_hash.is_none() && runtime.applied_desired_hash.is_none()
    } else {
        has_hash(&runtime.applied_desired_hash)
    }
}

/// True when the first snapshot ever waits for the inventory.
pub open spec fn first_inventory_recovery(runtime: NeutronRuntimeStateModel) -> bool {
    &&& is_text(runtime.recovery_cause, "inventory_unavailable"@)
    &&& pending_identity(runtime)
    &&& runtime.pending_generation == Some(runtime.accepted_generation)
    &&& runtime.applied_generation == 0
    &&& runtime.applied_desired_hash is None
    &&& runtime.ports == Map::<Seq<char>, ManagedNeutronPortModel>::empty()
    &&& runtime.port_statuses == Map::<Seq<char>, NeutronPortStatusModel>::empty()
}

fn pending_is_accepted(runtime: &NeutronRuntimeState) -> (r: bool)
    ensures
        r == (runtime.pending_generation == Some(runtime.accepted_generation)),
{
    match runtime.pending_generation {
        Some(pending) => pending == runtime.accepted_generation,
        None => false,
    }
}

/// Whether the first snapshot ever waits for the inventory.
pub fn status_v1_is_generation_zero_inventory_recovery(runtime: &NeutronRuntimeState) -> (r: bool)
    ensures
        r == first_inventory_recovery(runtime.deep_view()),
{
    string_is(&runtime.recovery_cause, "inventory_unavailable")
        && status_v1_has_complete_pending_identity(runtime) && pending_is_accepted(runtime)
        && runtime.applied_generation == 0 && runtime.applied_desired_hash.is_none()
        && runtime.ports.is_empty() && runtime.port_statuses.is_empty()
}

/// True when nothing was ever asked for.
pub open spec fn never_used(runtime: NeutronRuntimeStateModel) -> bool {
    &&& runtime.accepted_generation == 0
    &&& runtime.applied_generation == 0
    &&& runtime.pending_generation is None
    &&& runtime.desired_hash is None
    &&& runtime.applied_desired_hash is None
    &&& runtime.ports == Map::<Seq<char>, ManagedNeutronPortModel>::empty()
    &&& runtime.port_statuses == Map::<Seq<char>, NeutronPortStatusModel>::empty()
    &&& runtime.recovery_cause is None
    &&& runtime.authority_state.len() == 0 || runtime.authority_state == "idle"@
}

/// The four verdicts of a projection.
#[derive(Clone, Copy, Debug, PartialEq, Eq, Structural)]
pub struct StatusV1Verdict {
    pub transaction_state: NeutronStatusTransactionState,
    pub overall_readiness: NeutronStatusOverallReadiness,
    pub required_action: NeutronStatusRequiredAction,
    pub recovery_cause: Option<NeutronStatusRecoveryCause>,
}

/// The verdict that only an operator can go on.
pub open spec fn operator_verdict() -> StatusV1Verdict {
    StatusV1Verdict {
        transaction_state: NeutronStatusTransactionState::Blocked,
        overall_readiness: NeutronStatusOverallReadiness::Blocked,
        required_action: NeutronStatusRequiredAction::Operator,
        recovery_cause: None,
    }
}

/// The verdict that a pending generation has to be recovered.
pub open spec fn recover_verdict(
    recovery_cause: Option<NeutronStatusRecoveryCause>,
) -> StatusV1Verdict {
    StatusV1Verdict {
        transaction_state: NeutronStatusTransactionState::Blocked,
        overall_readiness: NeutronStatusOverallReadiness::Blocked,
        required_action: NeutronStatusRequiredAction::RecoverPending,
        recovery_cause,
    }
}

/// The verdict on a state in which something is pending.
pub open spec fn pending_verdict(runtime: NeutronRuntimeStateModel) -> StatusV1Verdict {
    let state = runtime.authority_state;
    if !pending_identity(runtime) {
        operator_verdict()
    } else if is_text(runtime.recovery_cause, "inventory_unavailable"@) {
        if runtime.pending_generation == Some(runtime.accepted_generation) && (
        runtime.applied_generation > 0 || first_inventory_recovery(runtime)) && state
            == "blocked_recovery_required"@ {
            recover_verdict(Some(NeutronStatusRecoveryCause::InventoryUnavailable))
        } else {
            operator_verdict()
        }
    } else if runtime.recovery_cause is Some {
        operator_verdict()
    } else if state == "applying"@ || state == "accepted"@ {
        StatusV1Verdict {
            transaction_state: NeutronStatusTransactionState::Pending,
            overall_readiness: NeutronStatusOverallReadiness::Unknown,
            required_action: NeutronStatusRequiredAction::Poll,
            recovery_cause: None,
        }
    } else if (state == "partial"@ || state == "blocked_recovery_required"@ || state
        == "recovered_pending_full_resync"@) && runtime.applied_generation > 0 {
        recover_verdict(None)
    } else {
        operator_verdict()
    }
}

/// The verdict on a classified state.
pub open spec fn classified_verdict(
    overall_readiness: NeutronStatusOverallReadiness,
    required_action: NeutronStatusRequiredAction,
) -> StatusV1Verdict {
    StatusV1Verdict {
        transaction_state: NeutronStatusTransactionState::Classified,
        overall_readiness,
        required_action,
        recovery_cause: None,
    }
}

/// The verdict on a state in which nothing is pending.
pub open spec fn settled_verdict(
    runtime: NeutronRuntimeStateModel,
    class: StatusV1EvidenceClass,
) -> StatusV1Verdict {
    let state = runtime.authority_state;
    let working = state == "ready"@ || state == "runtime_degraded"@;
    if runtime.recovery_cause is Some || !classified_identity(runtime) || class
        == StatusV1EvidenceClass::Blocked {
        operator_verdict()
    } else if state == "recovered_pending_full_resync_required"@ {
        StatusV1Verdict {
            transaction_state: NeutronStatusTransactionState::Recovery,
            overall_readiness: NeutronStatusOverallReadiness::Degraded,
            required_action: NeutronStatusRequiredAction::FullResync,
            recovery_cause: None,
        }
    } else if runtime.applied_generation == 0 {
        operator_verdict()
    } else if state == "ready"@ && class == StatusV1EvidenceClass::Ready {
        classified_verdict(
            NeutronStatusOverallReadiness::Ready,
            NeutronStatusRequiredAction::NoAction,
        )
    } else if working && class == StatusV1EvidenceClass::TerminalDegraded {
        classified_verdict(
            NeutronStatusOverallReadiness::Degraded,
            NeutronStatusRequiredAction::NoAction,
        )
    } else if working && class == StatusV1EvidenceClass::FullResync {
        classified_verdict(
            NeutronStatusOverallReadiness::Degraded,
            NeutronStatusRequiredAction::FullResync,
        )
    } else if state == "runtime_reconcile_requires_full_resync"@ || state == "degraded"@ {
        classified_verdict(
            NeutronStatusOverallReadiness::Degraded,
            NeutronStatusRequiredAction::FullResync,
        )
    } else {
        operator_verdict()
    }
}

/// The verdict on a runtime state.
pub open spec fn verdict(
    runtime: NeutronRuntimeStateModel,
    class: StatusV1EvidenceClass,
) -> StatusV1Verdict {
    if runtime.wal_replay_failures > 0 || (runtime.recovery_cause is Some && !is_text(
        runtime.recovery_cause,
        "inventory_unavailable"@,
    )) {
        operator_verdict()
    } else if never_used(runtime) {
        StatusV1Verdict {
            transaction_state: NeutronStatusTransactionState::Idle,
            overall_readiness: NeutronStatusOverallReadiness::Unknown,
            required_action: NeutronStatusRequiredAction::FullResync,
            recovery_cause: None,
        }
    } else if runtime.pending_generation is Some {
        pending_verdict(runtime)
    } else {
        settled_verdict(runtime, class)
    }
}

fn blocked_for_operator() -> (r: StatusV1Verdict)
    ensures
        r == operator_verdict(),
{
    StatusV1Verdict {
        transaction_state: NeutronStatusTransactionState::Blocked,
        overall_readiness: NeutronStatusOverallReadiness::Blocked,
        required_action: NeutronStatusRequiredAction::Operator,
        recovery_cause: None,
    }
}

fn blocked_for_recovery(recovery_cause: Option<NeutronStatusRecoveryCause>) -> (r: StatusV1Verdict)
    ensures
        r == recover_verdict(recovery_cause),
{
    StatusV1Verdict {
        transaction_state: NeutronStatusTransactionState::Blocked,
        overall_readiness: NeutronStatusOverallReadiness::Blocked,
        required_action: NeutronStatusRequiredAction::RecoverPending,
        recovery_cause,
    }
}

fn classified(
    overall_readiness: NeutronStatusOverallReadiness,
    required_action: NeutronStatusRequiredAction,
) -> (r: StatusV1Verdict)
    ensures
        r == classified_verdict(overall_readiness, required_action),
{
    StatusV1Verdict {
        transaction_state: NeutronStatusTransactionState::Classified,
        overall_readiness,
        required_action,
        recovery_cause: None,
    }
}

fn judge_pending(runtime: &NeutronRuntimeState) -> (r: StatusV1Verdict)
    ensures
        r == pending_verdict(runtime.deep_view()),
{
    let state = runtime.authority_state.as_str();
    if !status_v1_has_complete_pending_identity(runtime) {
        return blocked_for_operator();
    }
    if string_is(&runtime.recovery_cause, "inventory_unavailable") {
        if pending_is_accepted(runtime) && (runtime.applied_generation > 0
            || status_v1_is_generation_zero_inventory_recovery(runtime)) && text_eq(
            state,
            "blocked_recovery_required",
        ) {
            return blocked_for_recovery(Some(NeutronStatusRecoveryCause::InventoryUnavailable));
        }
        return blocked_for_operator();
    }
    if runtime.recovery_cause.is_some() {
        return blocked_for_operator();
    }
    if text_eq(state, "applying") || text_eq(state, "accepted") {
        StatusV1Verdict {
            transaction_state: NeutronStatusTransactionState::Pending,
            overall_readiness: NeutronStatusOverallReadiness::Unknown,
            required_action: NeutronStatusRequiredAction::Poll,
            recovery_cause: None,
        }
    } else if (text_eq(state, "partial") || text_eq(state, "blocked_recovery_required") || text_eq(
        state,
        "recovered_pending_full_resync",
    )) && runtime.applied_generation > 0 {
        blocked_for_recovery(None)
    } else {
        blocked_for_operator()
    }
}

fn judge_settled(runtime: &NeutronRuntimeState, class: StatusV1EvidenceClass) -> (r: StatusV1Verdict)
    ensures
        r == settled_verdict(runtime.deep_view(), class),
{
    let state = runtime.authority_state.as_str();
    if runtime.recovery_cause.is_some() || !status_v1_has_classified_identity(runtime) || class
        == StatusV1EvidenceClass::Blocked {
        return blocked_for_operator();
    }
    if text_eq(state, "recovered_pending_full_resync_required") {
        return StatusV1Verdict {
            transaction_state: NeutronStatusTransactionState::Recovery,
            overall_readiness: NeutronStatusOverallReadiness::Degraded,
            required_action: NeutronStatusRequiredAction::FullResync,
            recovery_cause: None,
        };
    }
    if runtime.applied_generation == 0 {
        return blocked_for_operator();
    }
    let ready = text_eq(state, "ready");
    let working = ready || text_eq(state, "runtime_degraded");
    if ready && class == StatusV1EvidenceClass::Ready {
        classified(NeutronStatusOverallReadiness::Ready, NeutronStatusRequiredAction::NoAction)
    } else if working && class == StatusV1EvidenceClass::TerminalDegraded {
        classified(NeutronStatusOverallReadiness::Degraded, NeutronStatusRequiredAction::NoAction)
    } else if working && class == StatusV1EvidenceClass::FullResync {
        classified(
            NeutronStatusOverallReadiness::Degraded,
            NeutronStatusRequiredAction::FullResync,
        )
    } else if text_eq(state, "runtime_reconcile_requires_full_resync") || text_eq(
        state,
        "degraded",
    ) {
        classified(
            NeutronStatusOverallReadiness::Degraded,
            NeutronStatusRequiredAction::FullResync,
        )
    } else {
        blocked_for_operator()
    }
}

fn is_never_used(runtime: &NeutronRuntimeState) -> (r: bool)
    ensures
        r == never_used(runtime.deep_view()),
{
    runtime.accepted_generation == 0 && runtime.applied_generation == 0
        && runtime.pending_generation.is_none() && runtime.desired_hash.is_none()
        && runtime.applied_desired_hash.is_none() && runtime.ports.is_empty()
        && runtime.port_statuses.is_empty() && runtime.recovery_cause.is_none() && (
    runtime.authority_state.as_str().is_empty() || text_eq(
        runtime.authority_state.as_str(),
        "idle",
    ))
}

/// What a runtime state amounts to.
pub open spec fn projection(runtime: NeutronRuntimeStateModel) -> ProjectionModel {
    let v = verdict(runtime, overall_class(runtime));
    ProjectionModel {
        transaction_state: v.transaction_state,
        overall_readiness: v.overall_readiness,
        required_action: v.required_action,
        recovery_cause: v.recovery_cause,
        last_classified_generation: runtime.applied_generation,
        port_statuses: reported_rows(runtime),
    }
}

/// Tells what a runtime state amounts to.
pub fn project_neutron_status_v1(runtime: &NeutronRuntimeState) -> (r: NeutronStatusV1Projection)
    ensures
        r.deep_view() == projection(runtime.deep_view()),
{
    let (port_statuses, class) = project_status_v1_ports(runtime);
    let unknown_cause = runtime.recovery_cause.is_some() && !string_is(
        &runtime.recovery_cause,
        "inventory_unavailable",
    );
    let v = if runtime.wal_replay_failures > 0 || unknown_cause {
        blocked_for_operator()
    } else if is_never_used(runtime) {
        StatusV1Verdict {
            transaction_state: NeutronStatusTransactionState::Idle,
            overall_readiness: NeutronStatusOverallReadiness::Unknown,
            required_action: NeutronStatusRequiredAction::FullResync,
            recovery_cause: None,
        }
    } else if runtime.pending_generation.is_some() {
        judge_pending(runtime)
    } else {
        judge_settled(runtime, class)
    };
    NeutronStatusV1Projection {
        transaction_state: v.transaction_state,
        overall_readiness: v.overall_readiness,
        required_action: v.required_action,
        recovery_cause: v.recovery_cause,
        last_classified_generation: runtime.applied_generation,
        port_statuses,
    }
}

/// What a runtime state amounts to, where a partly applied snapshot may be sent again.
pub open spec fn retryable_projection(
    runtime: NeutronRuntimeStateModel,
    durable_partial_retryable: bool,
) -> ProjectionModel {
    if durable_partial_retryable {
        ProjectionModel {
            transaction_state: NeutronStatusTransactionState::Blocked,
            overall_readiness: NeutronStatusOverallReadiness::Blocked,
            required_action: NeutronStatusRequiredAction::RetrySnapshot,
            recovery_cause: None,
            ..projection(runtime)
        }
    } else {
        projection(runtime)
    }
}

/// Tells what a runtime state amounts to, where a partly applied snapshot may be sent again.
pub fn project_neutron_status_v2(runtime: &NeutronRuntimeState, durable_partial_retryable: bool) -> (r:
    NeutronStatusV1Projection)
    ensures
        r.deep_view() == retryable_projection(runtime.deep_view(), durable_partial_retryable),
{
    let mut projection = project_neutron_status_v1(runtime);
    if durable_partial_retryable {
        projection.transaction_state = NeutronStatusTransactionState::Blocked;
        projection.overall_readiness = NeutronStatusOverallReadiness::Blocked;
        projection.required_action = NeutronStatusRequiredAction::RetrySnapshot;
        projection.recovery_cause = None;
    }
    projection
}

} // verus!
