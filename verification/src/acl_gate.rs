//! The ACL gate of the datapath: closed before rules change, opened only on proof.

use crate::acl_plan::{
    acl_enforced, cache_after, cached_validation, empty_plan, translate_neutron_acl_with_cache,
    translation, AclApplyPlan, AclApplyPlanModel, AclGroupPlan, AclGroupPlanModel, AclPolicyPlan,
    AclPolicyPlanModel, AclValidationCache, CacheKeyModel, ValidationModel,
};
use crate::acl_rules::{acl_prefix, neutron_acl_prefix};
use crate::domains::{manages_acl, port_manages_acl};
use crate::host::{HostOutcome, OutcomeModel};
use crate::model::{NeutronPortSnapshot, NeutronPortSnapshotModel};
use crate::ordered::{result_view, Value};
use crate::status::NeutronAclReconcileOutcome;
use crate::text::text_eq;
use vstd::prelude::*;
use vstd::string::*;

verus! {

/// The hook of the datapath at which filtering takes place.
pub const ACL_INGRESS_HOOK_TC: u8 = 1;

/// What the datapath of a port has switched on.
#[derive(Clone, Copy, Debug, PartialEq, Eq, Structural)]
pub struct AclRuntimeFeatureState {
    pub conntrack_enabled: bool,
    pub acl_enabled: bool,
    pub acl_ingress_hook: u8,
}

/// The states that the datapath of a port goes through when its rules change.
#[derive(Clone, Copy, Debug, PartialEq, Eq, Structural)]
pub struct AclRuntimeTransition {
    pub quiesce: AclRuntimeFeatureState,
    pub publish: AclRuntimeFeatureState,
}

/// The states for a plan: all off while rules change, then what the plan asks for.
pub open spec fn transition_of(
    plan: AclApplyPlanModel,
    preserved_conntrack_enabled: bool,
) -> AclRuntimeTransition {
    AclRuntimeTransition {
        quiesce: AclRuntimeFeatureState {
            conntrack_enabled: false,
            acl_enabled: false,
            acl_ingress_hook: ACL_INGRESS_HOOK_TC,
        },
        publish: AclRuntimeFeatureState {
            conntrack_enabled: match plan.conntrack_enabled {
                Some(enabled) => enabled,
                None => preserved_conntrack_enabled,
            },
            acl_enabled: plan.policies.len() > 0,
            acl_ingress_hook: ACL_INGRESS_HOOK_TC,
        },
    }
}

/// Finds the states for a plan.
pub fn acl_runtime_transition(plan: &AclApplyPlan, preserved_conntrack_enabled: bool) -> (r:
    AclRuntimeTransition)
    ensures
        r == transition_of(plan.deep_view(), preserved_conntrack_enabled),
{
    AclRuntimeTransition {
        quiesce: AclRuntimeFeatureState {
            conntrack_enabled: false,
            acl_enabled: false,
            acl_ingress_hook: ACL_INGRESS_HOOK_TC,
        },
        publish: AclRuntimeFeatureState {
            conntrack_enabled: match plan.conntrack_enabled {
                Some(enabled) => enabled,
                None => preserved_conntrack_enabled,
            },
            acl_enabled: plan.policies.len() > 0,
            acl_ingress_hook: ACL_INGRESS_HOOK_TC,
        },
    }
}

/// Whether a state needs the links of the datapath.
pub fn acl_runtime_feature_requires_tc(state: AclRuntimeFeatureState) -> (r: bool)
    ensures
        r == (state.conntrack_enabled || state.acl_enabled),
{
    state.conntrack_enabled || state.acl_enabled
}

/// How the ACL gate is handled when rules change.
#[derive(Clone, Copy, Debug, PartialEq, Eq, Structural)]
pub enum AclGateUpdateMode {
    DisableBeforeReplace,
}

impl AclGateUpdateMode {
    /// The name of the mode.
    pub fn as_str(self) -> (r: &'static str)
        ensures
            r@ == "disable_before_replace"@,
    {
        match self {
            AclGateUpdateMode::DisableBeforeReplace => "disable_before_replace",
        }
    }
}

/// The ACL gate is closed before every change, whatever the plan.
pub fn acl_gate_update_mode(_plan: &AclApplyPlan) -> (r: AclGateUpdateMode)
    ensures
        r == AclGateUpdateMode::DisableBeforeReplace,
{
    AclGateUpdateMode::DisableBeforeReplace
}

/// Why rules could not be changed, and what the datapath does now.
#[derive(Debug, PartialEq, Eq)]
pub struct NeutronAclReconcileError {
    pub details: String,
    pub effective_action: &'static str,
}

/// The model of [`NeutronAclReconcileError`].
#[verifier::ext_equal]
pub struct ReconcileErrorModel {
    pub details: Seq<char>,
    pub effective_action: Seq<char>,
}

impl DeepView for NeutronAclReconcileError {
    type V = ReconcileErrorModel;

    open spec fn deep_view(&self) -> ReconcileErrorModel {
        ReconcileErrorModel { details: self.details@, effective_action: self.effective_action@ }
    }
}

impl NeutronAclReconcileError {
    /// A failure before anything changed.
    pub fn unchanged(details: &str) -> (r: Self)
        ensures
            r.deep_view() == phase_error(AclReconcileFailurePhase::BeforeQuiesce, details@),
    {
        NeutronAclReconcileError { details: details.to_owned(), effective_action: "unchanged" }
    }

    /// A failure with the ACL gate closed.
    pub fn bypass(details: &str) -> (r: Self)
        ensures
            r.deep_view() == phase_error(AclReconcileFailurePhase::AfterQuiesce, details@),
    {
        NeutronAclReconcileError { details: details.to_owned(), effective_action: "bypass" }
    }

    /// A failure that left the ACL gate open.
    pub fn enforce(details: &str) -> (r: Self)
        ensures
            r.deep_view() == phase_error(AclReconcileFailurePhase::CompensationFailed, details@),
    {
        NeutronAclReconcileError { details: details.to_owned(), effective_action: "enforce" }
    }
}

/// When a change of rules failed.
#[derive(Clone, Copy, Debug, PartialEq, Eq, Structural)]
pub enum AclReconcileFailurePhase {
    BeforeQuiesce,
    AfterQuiesce,
    CompensationFailed,
}

/// What the datapath is known to do after a failure in a phase.
pub open spec fn phase_error(
    phase: AclReconcileFailurePhase,
    details: Seq<char>,
) -> ReconcileErrorModel {
    ReconcileErrorModel {
        details,
        effective_action: match phase {
            AclReconcileFailurePhase::BeforeQuiesce => "unchanged"@,
            AclReconcileFailurePhase::AfterQuiesce => "bypass"@,
            AclReconcileFailurePhase::CompensationFailed => "enforce"@,
        },
    }
}

/// Makes the error of a failure in a phase.
pub fn acl_reconcile_error(phase: AclReconcileFailurePhase, details: &str) -> (r:
    NeutronAclReconcileError)
    ensures
        r.deep_view() == phase_error(phase, details@),
{
    match phase {
        AclReconcileFailurePhase::BeforeQuiesce => NeutronAclReconcileError::unchanged(details),
        AclReconcileFailurePhase::AfterQuiesce => NeutronAclReconcileError::bypass(details),
        AclReconcileFailurePhase::CompensationFailed => NeutronAclReconcileError::enforce(details),
    }
}

/// What came of the steps that follow a replacement.
#[derive(Debug, PartialEq, Eq)]
pub struct AclCompletionHistory {
    pub published: Option<HostOutcome>,
    pub precommit_fault: Option<HostOutcome>,
    pub verified: Option<HostOutcome>,
    pub requiesced: Option<HostOutcome>,
}

/// The model of [`AclCompletionHistory`].
#[verifier::ext_equal]
pub struct CompletionHistoryModel {
    pub published: Option<OutcomeModel>,
    pub precommit_fault: Option<OutcomeModel>,
    pub verified: Option<OutcomeModel>,
    pub requiesced: Option<OutcomeModel>,
}

impl DeepView for AclCompletionHistory {
    type V = CompletionHistoryModel;

    open spec fn deep_view(&self) -> CompletionHistoryModel {
        CompletionHistoryModel {
            published: self.published.deep_view(),
            precommit_fault: self.precommit_fault.deep_view(),
            verified: self.verified.deep_view(),
            requiesced: self.requiesced.deep_view(),
        }
    }
}

impl Value for AclCompletionHistory {
    fn duplicate(&self) -> (r: Self) {
        AclCompletionHistory {
            published: self.published.duplicate(),
            precommit_fault: self.precommit_fault.duplicate(),
            verified: self.verified.duplicate(),
            requiesced: self.requiesced.duplicate(),
        }
    }

    fn same(&self, other: &Self) -> (r: bool) {
        self.published.same(&other.published)
            && self.precommit_fault.same(&other.precommit_fault)
            && self.verified.same(&other.verified)
            && self.requiesced.same(&other.requiesced)
    }
}

impl Clone for AclCompletionHistory {
    fn clone(&self) -> (r: Self)
        ensures
            r.deep_view() == self.deep_view(),
    {
        self.duplicate()
    }
}

/// What a replacement wrote.
#[derive(Debug, PartialEq, Eq)]
pub struct AclReplaceReport {
    pub group_cidr_add_count: u64,
    pub policy_add_count: u64,
}

/// The model of [`AclReplaceReport`].
#[verifier::ext_equal]
pub struct ReplaceReportModel {
    pub group_cidr_add_count: u64,
    pub policy_add_count: u64,
}

impl DeepView for AclReplaceReport {
    type V = ReplaceReportModel;

    open spec fn deep_view(&self) -> ReplaceReportModel {
        ReplaceReportModel {
            group_cidr_add_count: self.group_cidr_add_count,
            policy_add_count: self.policy_add_count,
        }
    }
}

impl Value for AclReplaceReport {
    fn duplicate(&self) -> (r: Self) {
        AclReplaceReport {
            group_cidr_add_count: self.group_cidr_add_count,
            policy_add_count: self.policy_add_count,
        }
    }

    fn same(&self, other: &Self) -> (r: bool) {
        self.group_cidr_add_count == other.group_cidr_add_count
            && self.policy_add_count == other.policy_add_count
    }
}

impl Clone for AclReplaceReport {
    fn clone(&self) -> (r: Self)
        ensures
            r.deep_view() == self.deep_view(),
    {
        self.duplicate()
    }
}

impl Default for AclCompletionHistory {
    fn default() -> (r: Self)
        ensures
            r.deep_view() == (CompletionHistoryModel {
                published: None,
                precommit_fault: None,
                verified: None,
                requiesced: None,
            }),
    {
        AclCompletionHistory {
            published: None,
            precommit_fault: None,
            verified: None,
            requiesced: None,
        }
    }
}

/// What has to follow a replacement.
#[derive(Debug, PartialEq, Eq)]
pub enum AclCompletionStep {
    /// Open the ACL gate.
    Publish,
    /// Ask for an injected fault.
    CheckFault,
    /// Compare the datapath with the plan.
    Verify,
    /// Close the ACL gate again.
    Requiesce,
    /// All is done, or it failed.
    Finish(Result<(), NeutronAclReconcileError>),
}

/// The model of [`AclCompletionStep`].
pub enum CompletionStepModel {
    Publish,
    CheckFault,
    Verify,
    Requiesce,
    Finish(Result<(), ReconcileErrorModel>),
}

impl DeepView for AclCompletionStep {
    type V = CompletionStepModel;

    open spec fn deep_view(&self) -> CompletionStepModel {
        match self {
            AclCompletionStep::Publish => CompletionStepModel::Publish,
            AclCompletionStep::CheckFault => CompletionStepModel::CheckFault,
            AclCompletionStep::Verify => CompletionStepModel::Verify,
            AclCompletionStep::Requiesce => CompletionStepModel::Requiesce,
            AclCompletionStep::Finish(result) => CompletionStepModel::Finish(
                match result {
                    Ok(_) => Ok(()),
                    Err(error) => Err(error.deep_view()),
                },
            ),
        }
    }
}

/// The failure of a step, if it failed.
pub open spec fn failure_of(outcome: Option<OutcomeModel>) -> Option<Seq<char>> {
    match outcome {
        Some(OutcomeModel::Failed(error)) => Some(error),
        _ => None,
    }
}

/// The failure of a completion, if one of its steps failed.
pub open spec fn completion_failure(h: CompletionHistoryModel) -> Option<Seq<char>> {
    if failure_of(h.published) is Some {
        failure_of(h.published)
    } else if h.published is Some && failure_of(h.precommit_fault) is Some {
        failure_of(h.precommit_fault)
    } else if h.published is Some && h.precommit_fault is Some {
        failure_of(h.verified)
    } else {
        None
    }
}

/// What has to follow a replacement, given what came of the earlier steps: the ACL gate is closed
/// again after every failure.
pub open spec fn completion_step(h: CompletionHistoryModel) -> CompletionStepModel {
    match completion_failure(h) {
        Some(error) => match h.requiesced {
            None => CompletionStepModel::Requiesce,
            Some(OutcomeModel::Done) => CompletionStepModel::Finish(
                Err(phase_error(AclReconcileFailurePhase::AfterQuiesce, error)),
            ),
            Some(OutcomeModel::Failed(again)) => CompletionStepModel::Finish(
                Err(
                    phase_error(
                        AclReconcileFailurePhase::CompensationFailed,
                        error + "; acl_requiesce_compensation_failed:"@ + again,
                    ),
                ),
            ),
        },
        None => if h.published is None {
            CompletionStepModel::Publish
        } else if h.precommit_fault is None {
            CompletionStepModel::CheckFault
        } else if h.verified is None {
            CompletionStepModel::Verify
        } else {
            CompletionStepModel::Finish(Ok(()))
        },
    }
}

/// Tells what has to follow a replacement.
pub fn execute_managed_acl_post_replace_completion(history: &AclCompletionHistory) -> (r:
    AclCompletionStep)
    ensures
        r.deep_view() == completion_step(history.deep_view()),
{
    let error = match (&history.published, &history.precommit_fault, &history.verified) {
        (None, _, _) => {
            return AclCompletionStep::Publish;
        },
        (Some(HostOutcome::Failed(error)), _, _) => error,
        (Some(HostOutcome::Done), None, _) => {
            return AclCompletionStep::CheckFault;
        },
        (Some(HostOutcome::Done), Some(HostOutcome::Failed(error)), _) => error,
        (Some(HostOutcome::Done), Some(HostOutcome::Done), None) => {
            return AclCompletionStep::Verify;
        },
        (
            Some(HostOutcome::Done),
            Some(HostOutcome::Done),
            Some(HostOutcome::Failed(error)),
        ) => error,
        (Some(HostOutcome::Done), Some(HostOutcome::Done), Some(HostOutcome::Done)) => {
            return AclCompletionStep::Finish(Ok(()));
        },
    };
    match &history.requiesced {
        None => AclCompletionStep::Requiesce,
        Some(HostOutcome::Done) => AclCompletionStep::Finish(
            Err(acl_reconcile_error(AclReconcileFailurePhase::AfterQuiesce, error.as_str())),
        ),
        Some(HostOutcome::Failed(again)) => {
            let mut details = error.duplicate();
            details.append("; acl_requiesce_compensation_failed:");
            details.append(again.as_str());
            AclCompletionStep::Finish(
                Err(
                    acl_reconcile_error(
                        AclReconcileFailurePhase::CompensationFailed,
                        details.as_str(),
                    ),
                ),
            )
        },
    }
}

/// What scrubbing the rules of a port has to do next.
#[derive(Debug, PartialEq, Eq)]
pub enum AclPurgeStep {
    /// Close the ACL gate.
    Quiesce { ifname: String },
    /// Replace the rules under the prefix by none.
    ReplaceByNothing { ifname: String, prefix: String },
    /// The rules are gone, or why they are not.
    Finish(Result<(), NeutronAclReconcileError>),
}

/// The model of [`AclPurgeStep`].
pub enum PurgeStepModel {
    Quiesce { ifname: Seq<char> },
    ReplaceByNothing { ifname: Seq<char>, prefix: Seq<char> },
    Finish(Result<(), ReconcileErrorModel>),
}

impl DeepView for AclPurgeStep {
    type V = PurgeStepModel;

    open spec fn deep_view(&self) -> PurgeStepModel {
        match self {
            AclPurgeStep::Quiesce { ifname } => PurgeStepModel::Quiesce { ifname: ifname@ },
            AclPurgeStep::ReplaceByNothing { ifname, prefix } => {
                PurgeStepModel::ReplaceByNothing { ifname: ifname@, prefix: prefix@ }
            },
            AclPurgeStep::Finish(result) => PurgeStepModel::Finish(
                match result {
                    Ok(_) => Ok(()),
                    Err(error) => Err(error.deep_view()),
                },
            ),
        }
    }
}

/// What scrubbing the rules of a port has to do next, given what came of the earlier steps.
pub open spec fn purge_step(
    ifname: Seq<char>,
    port_id: Seq<char>,
    quiesced: Option<OutcomeModel>,
    replaced: Option<OutcomeModel>,
) -> PurgeStepModel {
    match quiesced {
        None => PurgeStepModel::Quiesce { ifname },
        Some(OutcomeModel::Failed(error)) => PurgeStepModel::Finish(
            Err(phase_error(AclReconcileFailurePhase::BeforeQuiesce, error)),
        ),
        Some(OutcomeModel::Done) => match replaced {
            None => PurgeStepModel::ReplaceByNothing { ifname, prefix: acl_prefix(port_id) },
            Some(OutcomeModel::Failed(error)) => PurgeStepModel::Finish(
                Err(phase_error(AclReconcileFailurePhase::AfterQuiesce, error)),
            ),
            Some(OutcomeModel::Done) => PurgeStepModel::Finish(Ok(())),
        },
    }
}

/// Tells what scrubbing the rules of a port has to do next.
pub fn purge_neutron_acl_transactionally(
    ifname: &str,
    port_id: &str,
    quiesced: &Option<HostOutcome>,
    replaced: &Option<HostOutcome>,
) -> (r: AclPurgeStep)
    ensures
        r.deep_view() == purge_step(
            ifname@,
            port_id@,
            quiesced.deep_view(),
            replaced.deep_view(),
        ),
{
    match quiesced {
        None => AclPurgeStep::Quiesce { ifname: ifname.to_owned() },
        Some(HostOutcome::Failed(error)) => AclPurgeStep::Finish(
            Err(acl_reconcile_error(AclReconcileFailurePhase::BeforeQuiesce, error.as_str())),
        ),
        Some(HostOutcome::Done) => match replaced {
            None => AclPurgeStep::ReplaceByNothing {
                ifname: ifname.to_owned(),
                prefix: neutron_acl_prefix(port_id),
            },
            Some(HostOutcome::Failed(error)) => AclPurgeStep::Finish(
                Err(acl_reconcile_error(AclReconcileFailurePhase::AfterQuiesce, error.as_str())),
            ),
            Some(HostOutcome::Done) => AclPurgeStep::Finish(Ok(())),
        },
    }
}

/// What cleaning up a detached port has to do next.
#[derive(Debug, PartialEq, Eq)]
pub enum AclDetachCleanupStep {
    /// Close the ACL gate.
    Quiesce,
    /// Scrub the rules.
    Purge,
    /// Detach the interface.
    Detach,
    /// All is done, or why it is not.
    Finish(HostOutcome),
}

/// The model of [`AclDetachCleanupStep`].
pub enum DetachCleanupStepModel {
    Quiesce,
    Purge,
    Detach,
    Finish(OutcomeModel),
}

impl DeepView for AclDetachCleanupStep {
    type V = DetachCleanupStepModel;

    open spec fn deep_view(&self) -> DetachCleanupStepModel {
        match self {
            AclDetachCleanupStep::Quiesce => DetachCleanupStepModel::Quiesce,
            AclDetachCleanupStep::Purge => DetachCleanupStepModel::Purge,
            AclDetachCleanupStep::Detach => DetachCleanupStepModel::Detach,
            AclDetachCleanupStep::Finish(outcome) => DetachCleanupStepModel::Finish(
                outcome.deep_view(),
            ),
        }
    }
}

/// What cleaning up a detached port has to do next: each step only after the one before it was
/// done.
pub open spec fn detach_cleanup_step(
    quiesced: Option<OutcomeModel>,
    purged: Option<OutcomeModel>,
    detached: Option<OutcomeModel>,
) -> DetachCleanupStepModel {
    match quiesced {
        None => DetachCleanupStepModel::Quiesce,
        Some(OutcomeModel::Failed(error)) => DetachCleanupStepModel::Finish(
            OutcomeModel::Failed(error),
        ),
        Some(OutcomeModel::Done) => match purged {
            None => DetachCleanupStepModel::Purge,
            Some(OutcomeModel::Failed(error)) => DetachCleanupStepModel::Finish(
                OutcomeModel::Failed(error),
            ),
            Some(OutcomeModel::Done) => match detached {
                None => DetachCleanupStepModel::Detach,
                Some(outcome) => DetachCleanupStepModel::Finish(outcome),
            },
        },
    }
}

/// Tells what cleaning up a detached port has to do next.
pub fn execute_neutron_acl_detach_cleanup(
    quiesced: &Option<HostOutcome>,
    purged: &Option<HostOutcome>,
    detached: &Option<HostOutcome>,
) -> (r: AclDetachCleanupStep)
    ensures
        r.deep_view() == detach_cleanup_step(
            quiesced.deep_view(),
            purged.deep_view(),
            detached.deep_view(),
        ),
{
    match quiesced {
        None => AclDetachCleanupStep::Quiesce,
        Some(HostOutcome::Failed(error)) => AclDetachCleanupStep::Finish(
            HostOutcome::Failed(error.duplicate()),
        ),
        Some(HostOutcome::Done) => match purged {
            None => AclDetachCleanupStep::Purge,
            Some(HostOutcome::Failed(error)) => AclDetachCleanupStep::Finish(
                HostOutcome::Failed(error.duplicate()),
            ),
            Some(HostOutcome::Done) => match detached {
                None => AclDetachCleanupStep::Detach,
                Some(outcome) => AclDetachCleanupStep::Finish(outcome.duplicate()),
            },
        },
    }
}

/// A detached port is left in no other order than gate, rules, interface: nothing is detached
/// while its rules may still be there.
pub proof fn detach_follows_purge(
    quiesced: Option<OutcomeModel>,
    purged: Option<OutcomeModel>,
    detached: Option<OutcomeModel>,
)
    ensures
        detach_cleanup_step(quiesced, purged, detached) is Detach ==> quiesced == Some(
            OutcomeModel::Done,
        ) && purged == Some(OutcomeModel::Done),
        detach_cleanup_step(quiesced, purged, detached) is Purge ==> quiesced == Some(
            OutcomeModel::Done,
        ),
{
}

/// What came of the steps of changing the rules of a port.
#[derive(Debug)]
pub struct AclReconcileHistory {
    /// Whether connections were tracked before.
    pub config: Option<Result<bool, String>>,
    pub tc_ready: Option<HostOutcome>,
    pub quiesced: Option<HostOutcome>,
    pub disable_fault: Option<HostOutcome>,
    pub replaced: Option<Result<AclReplaceReport, String>>,
    pub purge_fault: Option<HostOutcome>,
    pub group_fault: Option<HostOutcome>,
    pub policy_fault: Option<HostOutcome>,
    pub enable_fault: Option<HostOutcome>,
    pub published: Option<HostOutcome>,
    pub precommit_fault: Option<HostOutcome>,
    pub verified: Option<HostOutcome>,
    pub requiesced: Option<HostOutcome>,
}

/// The model of [`AclReconcileHistory`].
#[verifier::ext_equal]
pub struct AclHistoryModel {
    pub config: Option<Result<bool, Seq<char>>>,
    pub tc_ready: Option<OutcomeModel>,
    pub quiesced: Option<OutcomeModel>,
    pub disable_fault: Option<OutcomeModel>,
    pub replaced: Option<Result<ReplaceReportModel, Seq<char>>>,
    pub purge_fault: Option<OutcomeModel>,
    pub group_fault: Option<OutcomeModel>,
    pub policy_fault: Option<OutcomeModel>,
    pub enable_fault: Option<OutcomeModel>,
    pub published: Option<OutcomeModel>,
    pub precommit_fault: Option<OutcomeModel>,
    pub verified: Option<OutcomeModel>,
    pub requiesced: Option<OutcomeModel>,
}

impl DeepView for AclReconcileHistory {
    type V = AclHistoryModel;

    open spec fn deep_view(&self) -> AclHistoryModel {
        AclHistoryModel {
            config: match self.config {
                None => None,
                Some(result) => Some(result_view(result)),
            },
            tc_ready: self.tc_ready.deep_view(),
            quiesced: self.quiesced.deep_view(),
            disable_fault: self.disable_fault.deep_view(),
            replaced: match self.replaced {
                None => None,
                Some(result) => Some(result_view(result)),
            },
            purge_fault: self.purge_fault.deep_view(),
            group_fault: self.group_fault.deep_view(),
            policy_fault: self.policy_fault.deep_view(),
            enable_fault: self.enable_fault.deep_view(),
            published: self.published.deep_view(),
            precommit_fault: self.precommit_fault.deep_view(),
            verified: self.verified.deep_view(),
            requiesced: self.requiesced.deep_view(),
        }
    }
}

/// The history of a change that has not begun.
pub open spec fn no_acl_history() -> AclHistoryModel {
    AclHistoryModel {
        config: None,
        tc_ready: None,
        quiesced: None,
        disable_fault: None,
        replaced: None,
        purge_fault: None,
        group_fault: None,
        policy_fault: None,
        enable_fault: None,
        published: None,
        precommit_fault: None,
        verified: None,
        requiesced: None,
    }
}

impl Default for AclReconcileHistory {
    fn default() -> (r: Self)
        ensures
            r.deep_view() == no_acl_history(),
    {
        AclReconcileHistory {
            config: None,
            tc_ready: None,
            quiesced: None,
            disable_fault: None,
            replaced: None,
            purge_fault: None,
            group_fault: None,
            policy_fault: None,
            enable_fault: None,
            published: None,
            precommit_fault: None,
            verified: None,
            requiesced: None,
        }
    }
}

/// The history with what a fault check at a point came to; other points are none of a change.
pub open spec fn acl_fault_noted(
    h: AclHistoryModel,
    point: Seq<char>,
    outcome: OutcomeModel,
) -> AclHistoryModel {
    if point == "neutron.acl.after_disable"@ {
        AclHistoryModel { disable_fault: Some(outcome), ..h }
    } else if point == "neutron.acl.after_purge"@ {
        AclHistoryModel { purge_fault: Some(outcome), ..h }
    } else if point == "neutron.acl.after_group_write"@ {
        AclHistoryModel { group_fault: Some(outcome), ..h }
    } else if point == "neutron.acl.after_policy_write"@ {
        AclHistoryModel { policy_fault: Some(outcome), ..h }
    } else if point == "neutron.acl.before_enable"@ {
        AclHistoryModel { enable_fault: Some(outcome), ..h }
    } else if point == "neutron.acl.after_enable_before_commit"@ {
        AclHistoryModel { precommit_fault: Some(outcome), ..h }
    } else {
        h
    }
}

impl AclReconcileHistory {
    /// Takes note of what a fault check at a point came to.
    pub fn note_fault(&mut self, point: &str, outcome: HostOutcome)
        ensures
            final(self).deep_view() == acl_fault_noted(
                old(self).deep_view(),
                point@,
                outcome.deep_view(),
            ),
    {
        if text_eq(point, "neutron.acl.after_disable") {
            self.disable_fault = Some(outcome);
        } else if text_eq(point, "neutron.acl.after_purge") {
            self.purge_fault = Some(outcome);
        } else if text_eq(point, "neutron.acl.after_group_write") {
            self.group_fault = Some(outcome);
        } else if text_eq(point, "neutron.acl.after_policy_write") {
            self.policy_fault = Some(outcome);
        } else if text_eq(point, "neutron.acl.before_enable") {
            self.enable_fault = Some(outcome);
        } else if text_eq(point, "neutron.acl.after_enable_before_commit") {
            self.precommit_fault = Some(outcome);
        }
    }
}

/// What changing the rules of a port has to do next.
#[derive(Debug, PartialEq, Eq)]
pub enum AclReconcileStep {
    /// Ask whether connections are tracked.
    ReadConfig { ifname: String },
    /// Make sure of the links of the datapath.
    RequireTc { ifname: String },
    /// Close the ACL gate.
    Quiesce { ifname: String },
    /// Ask for an injected fault at the named point.
    CheckFault(&'static str),
    /// Replace the rules under the prefix.
    Replace {
        ifname: String,
        prefix: String,
        groups: Vec<AclGroupPlan>,
        policies: Vec<AclPolicyPlan>,
        require_tc: bool,
    },
    /// Open the ACL gate.
    Publish { ifname: String, conntrack_enabled: bool, acl_enabled: bool, full_resync: bool },
    /// Compare the datapath with the plan.
    Verify { ifname: String },
    /// Close the ACL gate again.
    Requiesce { ifname: String },
    /// The rules are in force, or why they are not.
    Finish(Result<NeutronAclReconcileOutcome, NeutronAclReconcileError>),
}

/// The model of [`AclReconcileStep`]; a finished change is known by why traffic is let through,
/// if it is.
pub enum AclStepModel {
    ReadConfig { ifname: Seq<char> },
    RequireTc { ifname: Seq<char> },
    Quiesce { ifname: Seq<char> },
    CheckFault(Seq<char>),
    Replace {
        ifname: Seq<char>,
        prefix: Seq<char>,
        groups: Seq<AclGroupPlanModel>,
        policies: Seq<AclPolicyPlanModel>,
        require_tc: bool,
    },
    Publish { ifname: Seq<char>, conntrack_enabled: bool, acl_enabled: bool, full_resync: bool },
    Verify { ifname: Seq<char> },
    Requiesce { ifname: Seq<char> },
    Finish(Result<Option<Seq<char>>, ReconcileErrorModel>),
}

impl DeepView for AclReconcileStep {
    type V = AclStepModel;

    open spec fn deep_view(&self) -> AclStepModel {
        match self {
            AclReconcileStep::ReadConfig { ifname } => AclStepModel::ReadConfig { ifname: ifname@ },
            AclReconcileStep::RequireTc { ifname } => AclStepModel::RequireTc { ifname: ifname@ },
            AclReconcileStep::Quiesce { ifname } => AclStepModel::Quiesce { ifname: ifname@ },
            AclReconcileStep::CheckFault(point) => AclStepModel::CheckFault(point@),
            AclReconcileStep::Replace { ifname, prefix, groups, policies, require_tc } => {
                AclStepModel::Replace {
                    ifname: ifname@,
                    prefix: prefix@,
                    groups: groups.deep_view(),
                    policies: policies.deep_view(),
                    require_tc: *require_tc,
                }
            },
            AclReconcileStep::Publish { ifname, conntrack_enabled, acl_enabled, full_resync } => {
                AclStepModel::Publish {
                    ifname: ifname@,
                    conntrack_enabled: *conntrack_enabled,
                    acl_enabled: *acl_enabled,
                    full_resync: *full_resync,
                }
            },
            AclReconcileStep::Verify { ifname } => AclStepModel::Verify { ifname: ifname@ },
            AclReconcileStep::Requiesce { ifname } => AclStepModel::Requiesce { ifname: ifname@ },
            AclReconcileStep::Finish(result) => AclStepModel::Finish(
                match result {
                    Ok(outcome) => Ok(outcome.force_bypass_reason.deep_view()),
                    Err(error) => Err(error.deep_view()),
                },
            ),
        }
    }
}

/// A change that failed in a phase.
pub open spec fn acl_failure(phase: AclReconcileFailurePhase, details: Seq<char>) -> AclStepModel {
    AclStepModel::Finish(Err(phase_error(phase, details)))
}

/// What opening the ACL gate came to, with the fault that may be injected before it.
pub open spec fn publish_outcome(plan: AclApplyPlanModel, h: AclHistoryModel) -> Option<
    OutcomeModel,
> {
    if plan.policies.len() > 0 {
        match h.enable_fault {
            Some(OutcomeModel::Failed(error)) => Some(OutcomeModel::Failed(error)),
            Some(OutcomeModel::Done) => h.published,
            None => None,
        }
    } else {
        h.published
    }
}

/// What is to be done once the rules are replaced.
pub open spec fn replaced_step(
    ifname: Seq<char>,
    plan: AclApplyPlanModel,
    publish: AclRuntimeFeatureState,
    full_resync: bool,
    report: ReplaceReportModel,
    h: AclHistoryModel,
) -> AclStepModel {
    if h.purge_fault is None {
        AclStepModel::CheckFault("neutron.acl.after_purge"@)
    } else if failure_of(h.purge_fault) is Some {
        acl_failure(AclReconcileFailurePhase::AfterQuiesce, failure_of(h.purge_fault)->0)
    } else if report.group_cidr_add_count > 0 && h.group_fault is None {
        AclStepModel::CheckFault("neutron.acl.after_group_write"@)
    } else if report.group_cidr_add_count > 0 && failure_of(h.group_fault) is Some {
        acl_failure(AclReconcileFailurePhase::AfterQuiesce, failure_of(h.group_fault)->0)
    } else if report.policy_add_count > 0 && h.policy_fault is None {
        AclStepModel::CheckFault("neutron.acl.after_policy_write"@)
    } else if report.policy_add_count > 0 && failure_of(h.policy_fault) is Some {
        acl_failure(AclReconcileFailurePhase::AfterQuiesce, failure_of(h.policy_fault)->0)
    } else {
        match completion_step(
            CompletionHistoryModel {
                published: publish_outcome(plan, h),
                precommit_fault: h.precommit_fault,
                verified: h.verified,
                requiesced: h.requiesced,
            },
        ) {
            CompletionStepModel::Publish => if plan.policies.len() > 0 && h.enable_fault is None {
                AclStepModel::CheckFault("neutron.acl.before_enable"@)
            } else {
                AclStepModel::Publish {
                    ifname,
                    conntrack_enabled: publish.conntrack_enabled,
                    acl_enabled: publish.acl_enabled,
                    full_resync,
                }
            },
            CompletionStepModel::CheckFault => AclStepModel::CheckFault(
                "neutron.acl.after_enable_before_commit"@,
            ),
            CompletionStepModel::Verify => AclStepModel::Verify { ifname },
            CompletionStepModel::Requiesce => AclStepModel::Requiesce { ifname },
            CompletionStepModel::Finish(Ok(_)) => AclStepModel::Finish(
                Ok(plan.force_bypass_reason),
            ),
            CompletionStepModel::Finish(Err(error)) => AclStepModel::Finish(Err(error)),
        }
    }
}

/// What is to be done once it is known whether connections were tracked.
pub open spec fn gated_step(
    port: NeutronPortSnapshotModel,
    plan: AclApplyPlanModel,
    preserved: bool,
    full_resync: bool,
    h: AclHistoryModel,
) -> AclStepModel {
    let publish = transition_of(plan, preserved).publish;
    let require_tc = publish.conntrack_enabled || publish.acl_enabled;
    if require_tc && h.tc_ready is None {
        AclStepModel::RequireTc { ifname: port.ifname }
    } else if require_tc && failure_of(h.tc_ready) is Some {
        acl_failure(AclReconcileFailurePhase::BeforeQuiesce, failure_of(h.tc_ready)->0)
    } else if h.quiesced is None {
        AclStepModel::Quiesce { ifname: port.ifname }
    } else if failure_of(h.quiesced) is Some {
        acl_failure(AclReconcileFailurePhase::BeforeQuiesce, failure_of(h.quiesced)->0)
    } else if h.disable_fault is None {
        AclStepModel::CheckFault("neutron.acl.after_disable"@)
    } else if failure_of(h.disable_fault) is Some {
        acl_failure(AclReconcileFailurePhase::AfterQuiesce, failure_of(h.disable_fault)->0)
    } else {
        match h.replaced {
            None => AclStepModel::Replace {
                ifname: port.ifname,
                prefix: acl_prefix(port.port_id),
                groups: plan.groups,
                policies: plan.policies,
                require_tc,
            },
            Some(Err(error)) => acl_failure(AclReconcileFailurePhase::AfterQuiesce, error),
            Some(Ok(report)) => replaced_step(port.ifname, plan, publish, full_resync, report, h),
        }
    }
}

/// What changing the rules of a port has to do next, given the plan and what came of the earlier
/// steps.
pub open spec fn acl_step(
    port: NeutronPortSnapshotModel,
    plan: Result<AclApplyPlanModel, Seq<char>>,
    full_resync: bool,
    h: AclHistoryModel,
) -> AclStepModel {
    if !manages_acl(port.managed_domains) {
        AclStepModel::Finish(Ok(None))
    } else {
        match plan {
            Err(error) => acl_failure(AclReconcileFailurePhase::BeforeQuiesce, error),
            Ok(plan) => if plan.conntrack_enabled is Some {
                gated_step(port, plan, false, full_resync, h)
            } else {
                match h.config {
                    None => AclStepModel::ReadConfig { ifname: port.ifname },
                    Some(Err(error)) => acl_failure(AclReconcileFailurePhase::BeforeQuiesce, error),
                    Some(Ok(before)) => gated_step(port, plan, before, full_resync, h),
                }
            },
        }
    }
}

fn failed(phase: AclReconcileFailurePhase, error: &String) -> (r: AclReconcileStep)
    ensures
        r.deep_view() == acl_failure(phase, error@),
{
    AclReconcileStep::Finish(Err(acl_reconcile_error(phase, error.as_str())))
}

fn next_replaced_step(
    ifname: &String,
    plan: &AclApplyPlan,
    publish: AclRuntimeFeatureState,
    full_resync: bool,
    report: &AclReplaceReport,
    h: &AclReconcileHistory,
) -> (r: AclReconcileStep)
    ensures
        r.deep_view() == replaced_step(
            ifname@,
            plan.deep_view(),
            publish,
            full_resync,
            report.deep_view(),
            h.deep_view(),
        ),
{
    let after = AclReconcileFailurePhase::AfterQuiesce;
    match &h.purge_fault {
        None => {
            return AclReconcileStep::CheckFault("neutron.acl.after_purge");
        },
        Some(HostOutcome::Failed(error)) => {
            return failed(after, error);
        },
        Some(HostOutcome::Done) => {},
    }
    if report.group_cidr_add_count > 0 {
        match &h.group_fault {
            None => {
                return AclReconcileStep::CheckFault("neutron.acl.after_group_write");
            },
            Some(HostOutcome::Failed(error)) => {
                return failed(after, error);
            },
            Some(HostOutcome::Done) => {},
        }
    }
    if report.policy_add_count > 0 {
        match &h.policy_fault {
            None => {
                return AclReconcileStep::CheckFault("neutron.acl.after_policy_write");
            },
            Some(HostOutcome::Failed(error)) => {
                return failed(after, error);
            },
            Some(HostOutcome::Done) => {},
        }
    }
    let guarded = plan.policies.len() > 0;
    let published = if guarded {
        match &h.enable_fault {
            Some(HostOutcome::Failed(error)) => Some(HostOutcome::Failed(error.duplicate())),
            Some(HostOutcome::Done) => h.published.duplicate(),
            None => None,
        }
    } else {
        h.published.duplicate()
    };
    let completion = AclCompletionHistory {
        published,
        precommit_fault: h.precommit_fault.duplicate(),
        verified: h.verified.duplicate(),
        requiesced: h.requiesced.duplicate(),
    };
    match execute_managed_acl_post_replace_completion(&completion) {
        AclCompletionStep::Publish => if guarded && h.enable_fault.is_none() {
            AclReconcileStep::CheckFault("neutron.acl.before_enable")
        } else {
            AclReconcileStep::Publish {
                ifname: ifname.duplicate(),
                conntrack_enabled: publish.conntrack_enabled,
                acl_enabled: publish.acl_enabled,
                full_resync,
            }
        },
        AclCompletionStep::CheckFault => AclReconcileStep::CheckFault(
            "neutron.acl.after_enable_before_commit",
        ),
        AclCompletionStep::Verify => AclReconcileStep::Verify { ifname: ifname.duplicate() },
        AclCompletionStep::Requiesce => AclReconcileStep::Requiesce { ifname: ifname.duplicate() },
        AclCompletionStep::Finish(Ok(_)) => AclReconcileStep::Finish(
            Ok(NeutronAclReconcileOutcome::from_plan(plan)),
        ),
        AclCompletionStep::Finish(Err(error)) => AclReconcileStep::Finish(Err(error)),
    }
}

fn next_gated_step(
    port: &NeutronPortSnapshot,
    plan: &AclApplyPlan,
    preserved: bool,
    full_resync: bool,
    h: &AclReconcileHistory,
) -> (r: AclReconcileStep)
    ensures
        r.deep_view() == gated_step(
            port.deep_view(),
            plan.deep_view(),
            preserved,
            full_resync,
            h.deep_view(),
        ),
{
    let publish = acl_runtime_transition(plan, preserved).publish;
    let require_tc = acl_runtime_feature_requires_tc(publish);
    if require_tc {
        match &h.tc_ready {
            None => {
                return AclReconcileStep::RequireTc { ifname: port.ifname.duplicate() };
            },
            Some(HostOutcome::Failed(error)) => {
                return failed(AclReconcileFailurePhase::BeforeQuiesce, error);
            },
            Some(HostOutcome::Done) => {},
        }
    }
    match &h.quiesced {
        None => {
            return AclReconcileStep::Quiesce { ifname: port.ifname.duplicate() };
        },
        Some(HostOutcome::Failed(error)) => {
            return failed(AclReconcileFailurePhase::BeforeQuiesce, error);
        },
        Some(HostOutcome::Done) => {},
    }
    match &h.disable_fault {
        None => {
            return AclReconcileStep::CheckFault("neutron.acl.after_disable");
        },
        Some(HostOutcome::Failed(error)) => {
            return failed(AclReconcileFailurePhase::AfterQuiesce, error);
        },
        Some(HostOutcome::Done) => {},
    }
    match &h.replaced {
        None => AclReconcileStep::Replace {
            ifname: port.ifname.duplicate(),
            prefix: neutron_acl_prefix(port.port_id.as_str()),
            groups: plan.groups.duplicate(),
            policies: plan.policies.duplicate(),
            require_tc,
        },
        Some(Err(error)) => failed(AclReconcileFailurePhase::AfterQuiesce, error),
        Some(Ok(report)) => next_replaced_step(
            &port.ifname,
            plan,
            publish,
            full_resync,
            report,
            h,
        ),
    }
}

/// The plan of the rules of a port: of its own, or of none where it has none.
pub open spec fn port_plan(
    port: NeutronPortSnapshotModel,
    entries: Map<CacheKeyModel, ValidationModel>,
) -> Result<AclApplyPlanModel, Seq<char>> {
    match port.acl {
        Some(acl) => translation(port.port_id, acl, cached_validation(entries, acl)),
        None => Ok(empty_plan(None)),
    }
}

/// Plans the rules of a port.
pub fn plan_neutron_acl(port: &NeutronPortSnapshot, cache: &mut AclValidationCache) -> (r: Result<
    AclApplyPlan,
    String,
>)
    requires
        old(cache).hits < usize::MAX,
        old(cache).misses < usize::MAX,
    ensures
        result_view(r) == port_plan(port.deep_view(), old(cache).entries.deep_view()),
        match port.deep_view().acl {
            Some(acl) if acl_enforced(acl) => cache_after(*old(cache), *final(cache), acl),
            _ => *final(cache) == *old(cache),
        },
{
    match &port.acl {
        Some(acl) => translate_neutron_acl_with_cache(port.port_id.as_str(), acl, cache),
        None => Ok(AclApplyPlan::default()),
    }
}

/// Tells what changing the rules of a port has to do next.
pub fn reconcile_neutron_acl(
    port: &NeutronPortSnapshot,
    plan: &Result<AclApplyPlan, String>,
    full_resync: bool,
    history: &AclReconcileHistory,
) -> (r: AclReconcileStep)
    ensures
        r.deep_view() == acl_step(
            port.deep_view(),
            result_view(*plan),
            full_resync,
            history.deep_view(),
        ),
{
    if !port_manages_acl(port) {
        return AclReconcileStep::Finish(
            Ok(NeutronAclReconcileOutcome { force_bypass_reason: None }),
        );
    }
    let plan = match plan {
        Ok(plan) => plan,
        Err(error) => {
            return failed(AclReconcileFailurePhase::BeforeQuiesce, error);
        },
    };
    if plan.conntrack_enabled.is_some() {
        return next_gated_step(port, plan, false, full_resync, history);
    }
    match &history.config {
        None => AclReconcileStep::ReadConfig { ifname: port.ifname.duplicate() },
        Some(Err(error)) => failed(AclReconcileFailurePhase::BeforeQuiesce, error),
        Some(Ok(before)) => next_gated_step(port, plan, *before, full_resync, history),
    }
}

/// Rules are replaced, and the ACL gate is opened, only after the ACL gate was closed.
pub proof fn rules_change_behind_a_closed_gate(
    port: NeutronPortSnapshotModel,
    plan: Result<AclApplyPlanModel, Seq<char>>,
    full_resync: bool,
    h: AclHistoryModel,
)
    ensures
        acl_step(port, plan, full_resync, h) is Replace || acl_step(port, plan, full_resync, h)
            is Publish ==> h.quiesced == Some(OutcomeModel::Done),
        acl_step(port, plan, full_resync, h) is Publish ==> h.replaced is Some && h.replaced->0
            is Ok,
{
}

/// A change is reported as in force only if the ACL gate was closed, opened again and the datapath
/// compared with the plan. What a failed change says of the datapath is what was proved of it:
/// unchanged where the ACL gate was never closed, let through only where it was, and still enforced
/// only where closing it again failed.
pub proof fn rules_are_in_force_only_on_proof(
    port: NeutronPortSnapshotModel,
    plan: Result<AclApplyPlanModel, Seq<char>>,
    full_resync: bool,
    h: AclHistoryModel,
)
    requires
        manages_acl(port.managed_domains),
        acl_step(port, plan, full_resync, h) is Finish,
    ensures
        match acl_step(port, plan, full_resync, h)->Finish_0 {
            Ok(bypass) => {
                &&& plan is Ok
                &&& bypass == plan->Ok_0.force_bypass_reason
                &&& h.quiesced == Some(OutcomeModel::Done)
                &&& h.published == Some(OutcomeModel::Done)
                &&& h.verified == Some(OutcomeModel::Done)
            },
            Err(error) => {
                &&& h.quiesced != Some(OutcomeModel::Done) ==> error.effective_action
                    == "unchanged"@
                &&& error.effective_action == "bypass"@ ==> h.quiesced == Some(OutcomeModel::Done)
                &&& error.effective_action == "enforce"@ ==> h.quiesced == Some(
                    OutcomeModel::Done,
                ) && failure_of(h.requiesced) is Some
            },
        },
{
    reveal_strlit("unchanged");
    reveal_strlit("bypass");
    reveal_strlit("enforce");
    assert("unchanged"@.len() == 9 && "bypass"@.len() == 6 && "enforce"@.len() == 7);
}

/// A fault check that was answered is not asked for again.
pub proof fn acl_fault_checks_are_answered(
    port: NeutronPortSnapshotModel,
    plan: Result<AclApplyPlanModel, Seq<char>>,
    full_resync: bool,
    h: AclHistoryModel,
    outcome: OutcomeModel,
)
    requires
        acl_step(port, plan, full_resync, h) is CheckFault,
    ensures
        acl_step(
            port,
            plan,
            full_resync,
            acl_fault_noted(h, acl_step(port, plan, full_resync, h)->CheckFault_0, outcome),
        ) != acl_step(port, plan, full_resync, h),
{
    reveal_strlit("neutron.acl.after_disable");
    reveal_strlit("neutron.acl.after_purge");
    reveal_strlit("neutron.acl.after_group_write");
    reveal_strlit("neutron.acl.after_policy_write");
    reveal_strlit("neutron.acl.before_enable");
    reveal_strlit("neutron.acl.after_enable_before_commit");
    assert("neutron.acl.after_disable"@.len() == 25);
    assert("neutron.acl.after_purge"@.len() == 23);
    assert("neutron.acl.after_group_write"@.len() == 29);
    assert("neutron.acl.after_policy_write"@.len() == 30);
    assert("neutron.acl.before_enable"@.len() == 25);
    assert("neutron.acl.after_enable_before_commit"@.len() == 38);
    assert("neutron.acl.after_disable"@[12] != "neutron.acl.before_enable"@[12]);
}

} // verus!
