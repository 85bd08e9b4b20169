//! What holds of every change of the rules of a port.

use crate::acl_gate::{
    acl_step, completion_step, detach_cleanup_step, port_plan, purge_step, transition_of,
    AclHistoryModel, AclStepModel, CompletionHistoryModel, CompletionStepModel,
    DetachCleanupStepModel, PurgeStepModel, ReconcileErrorModel,
};
use crate::acl_plan::{translation, validation, AclApplyPlanModel, CacheKeyModel, ValidationModel};
use crate::host::OutcomeModel;
use crate::model::NeutronPortSnapshotModel;
use crate::port_laws::asks_for_rules;
use vstd::prelude::*;

verus! {

/// A change that stopped, with what it says of the traffic.
pub open spec fn stopped(details: Seq<char>, effective_action: Seq<char>) -> AclStepModel {
    AclStepModel::Finish(Err(ReconcileErrorModel { details, effective_action }))
}

/// Whether connections are to be tracked under a plan: what the plan says, or else what was found.
pub open spec fn tracks(plan: AclApplyPlanModel, h: AclHistoryModel) -> bool {
    match plan.conntrack_enabled {
        Some(enabled) => enabled,
        None => h.config matches Some(Ok(found)) && found,
    }
}

/// True when a change may begin: what it has to know of the interface is known, and where there is
/// anything to filter or track the hooks are in place.
pub open spec fn may_begin(plan: AclApplyPlanModel, h: AclHistoryModel) -> bool {
    &&& plan.conntrack_enabled is Some || (h.config is Some && h.config->0 is Ok)
    &&& plan.policies.len() > 0 || tracks(plan, h) ==> h.tc_ready == Some(OutcomeModel::Done)
}

/// True when the rules were replaced with filtering off, and nothing went wrong up to there.
pub open spec fn rules_replaced(plan: AclApplyPlanModel, h: AclHistoryModel) -> bool {
    &&& may_begin(plan, h)
    &&& h.quiesced == Some(OutcomeModel::Done)
    &&& h.disable_fault == Some(OutcomeModel::Done)
    &&& h.replaced is Some && h.replaced->0 is Ok
    &&& h.purge_fault == Some(OutcomeModel::Done)
    &&& h.replaced->0->Ok_0.group_cidr_add_count > 0 ==> h.group_fault == Some(OutcomeModel::Done)
    &&& h.replaced->0->Ok_0.policy_add_count > 0 ==> h.policy_fault == Some(OutcomeModel::Done)
}

/// What is written to the datapath is the plan, for the interface and under the prefix of the port;
/// filtering is switched on exactly where the plan has policies, and tracking as the plan says.
pub proof fn the_plan_is_what_is_written(
    port: NeutronPortSnapshotModel,
    plan: AclApplyPlanModel,
    full_resync: bool,
    h: AclHistoryModel,
)
    ensures
        ({
            let step = acl_step(port, Ok(plan), full_resync, h);
            &&& step matches AclStepModel::Replace { ifname, prefix, groups, policies, require_tc }
                ==> {
                &&& ifname == port.ifname
                &&& prefix == "neutron:"@ + port.port_id + ":"@
                &&& groups == plan.groups
                &&& policies == plan.policies
                &&& require_tc == (plan.policies.len() > 0 || tracks(plan, h))
            }
            &&& step matches AclStepModel::Publish {
                ifname,
                conntrack_enabled,
                acl_enabled,
                full_resync: afresh,
            } ==> {
                &&& ifname == port.ifname
                &&& acl_enabled == (plan.policies.len() > 0)
                &&& conntrack_enabled == tracks(plan, h)
                &&& afresh == full_resync
            }
            &&& step matches AclStepModel::Quiesce { ifname } ==> ifname == port.ifname
            &&& step matches AclStepModel::Requiesce { ifname } ==> ifname == port.ifname
            &&& step matches AclStepModel::Verify { ifname } ==> ifname == port.ifname
            &&& step matches AclStepModel::RequireTc { ifname } ==> ifname == port.ifname && (
            plan.policies.len() > 0 || tracks(plan, h))
            &&& step matches AclStepModel::ReadConfig { ifname } ==> ifname == port.ifname
                && plan.conntrack_enabled is None
        }),
{
}

/// A port that does not ask for rules is left alone, and a plan that could not be made changes
/// nothing.
pub proof fn nothing_changes_without_a_plan(
    port: NeutronPortSnapshotModel,
    plan: Result<AclApplyPlanModel, Seq<char>>,
    full_resync: bool,
    h: AclHistoryModel,
)
    ensures
        !asks_for_rules(port) ==> acl_step(port, plan, full_resync, h) == AclStepModel::Finish(
            Ok(None),
        ),
        asks_for_rules(port) && plan is Err ==> acl_step(port, plan, full_resync, h) == stopped(
            plan->Err_0,
            "unchanged"@,
        ),
{
    reveal_strlit("acl");
    assert("acl"@.len() > 0);
    assert(crate::domains::manages_acl(port.managed_domains) == asks_for_rules(port));
}

/// What goes wrong before filtering is off leaves the rules as they were: the change stops there
/// and says so.
pub proof fn early_failures_change_nothing(
    port: NeutronPortSnapshotModel,
    plan: AclApplyPlanModel,
    full_resync: bool,
    h: AclHistoryModel,
)
    requires
        asks_for_rules(port),
    ensures
        ({
            let step = acl_step(port, Ok(plan), full_resync, h);
            let hooks = plan.policies.len() > 0 || tracks(plan, h);
            let known = plan.conntrack_enabled is Some || (h.config is Some && h.config->0 is Ok);
            &&& plan.conntrack_enabled is None && h.config is None ==> step is ReadConfig
            &&& plan.conntrack_enabled is None && h.config is Some && h.config->0 is Err ==> step
                == stopped(h.config->0->Err_0, "unchanged"@)
            &&& known && hooks && h.tc_ready is None ==> step is RequireTc
            &&& known && hooks && h.tc_ready is Some && h.tc_ready->0 is Failed ==> step == stopped(
                h.tc_ready->0->Failed_0,
                "unchanged"@,
            )
            &&& may_begin(plan, h) && h.quiesced is None ==> step is Quiesce
            &&& may_begin(plan, h) && h.quiesced is Some && h.quiesced->0 is Failed ==> step
                == stopped(h.quiesced->0->Failed_0, "unchanged"@)
        }),
{
    reveal_strlit("acl");
    assert("acl"@.len() > 0);
    assert(crate::domains::manages_acl(port.managed_domains) == asks_for_rules(port));
}

/// What goes wrong once filtering is off, and before it is switched on again, leaves the traffic
/// unfiltered: the change stops there and says so.
pub proof fn failures_with_filtering_off_let_traffic_through(
    port: NeutronPortSnapshotModel,
    plan: AclApplyPlanModel,
    full_resync: bool,
    h: AclHistoryModel,
)
    requires
        asks_for_rules(port),
        may_begin(plan, h),
        h.quiesced == Some(OutcomeModel::Done),
    ensures
        ({
            let step = acl_step(port, Ok(plan), full_resync, h);
            let off = h.disable_fault == Some(OutcomeModel::Done);
            let written = off && h.replaced is Some && h.replaced->0 is Ok;
            let report = h.replaced->0->Ok_0;
            &&& h.disable_fault is None ==> step == AclStepModel::CheckFault(
                "neutron.acl.after_disable"@,
            )
            &&& h.disable_fault is Some && h.disable_fault->0 is Failed ==> step == stopped(
                h.disable_fault->0->Failed_0,
                "bypass"@,
            )
            &&& off && h.replaced is None ==> step is Replace
            &&& off && h.replaced is Some && h.replaced->0 is Err ==> step == stopped(
                h.replaced->0->Err_0,
                "bypass"@,
            )
            &&& written && h.purge_fault is None ==> step == AclStepModel::CheckFault(
                "neutron.acl.after_purge"@,
            )
            &&& written && h.purge_fault is Some && h.purge_fault->0 is Failed ==> step == stopped(
                h.purge_fault->0->Failed_0,
                "bypass"@,
            )
            &&& written && h.purge_fault == Some(OutcomeModel::Done) && report.group_cidr_add_count
                > 0 ==> {
                &&& h.group_fault is None ==> step == AclStepModel::CheckFault(
                    "neutron.acl.after_group_write"@,
                )
                &&& h.group_fault is Some && h.group_fault->0 is Failed ==> step == stopped(
                    h.group_fault->0->Failed_0,
                    "bypass"@,
                )
            }
            &&& written && h.purge_fault == Some(OutcomeModel::Done) && (
            report.group_cidr_add_count > 0 ==> h.group_fault == Some(OutcomeModel::Done))
                && report.policy_add_count > 0 ==> {
                &&& h.policy_fault is None ==> step == AclStepModel::CheckFault(
                    "neutron.acl.after_policy_write"@,
                )
                &&& h.policy_fault is Some && h.policy_fault->0 is Failed ==> step == stopped(
                    h.policy_fault->0->Failed_0,
                    "bypass"@,
                )
            }
        }),
{
    reveal_strlit("acl");
    assert("acl"@.len() > 0);
    assert(crate::domains::manages_acl(port.managed_domains) == asks_for_rules(port));
}

/// What went wrong once the rules were replaced: switching filtering on, the check after it, or the
/// comparison of the datapath with the plan.
pub open spec fn late_failure(plan: AclApplyPlanModel, h: AclHistoryModel) -> Option<Seq<char>> {
    if plan.policies.len() > 0 && h.enable_fault is Some && h.enable_fault->0 is Failed {
        Some(h.enable_fault->0->Failed_0)
    } else if plan.policies.len() > 0 && h.enable_fault is None {
        None
    } else if h.published is None {
        None
    } else if h.published->0 is Failed {
        Some(h.published->0->Failed_0)
    } else if h.precommit_fault is None {
        None
    } else if h.precommit_fault->0 is Failed {
        Some(h.precommit_fault->0->Failed_0)
    } else if h.verified is Some && h.verified->0 is Failed {
        Some(h.verified->0->Failed_0)
    } else {
        None
    }
}

/// Once the rules are replaced filtering is switched on, and the datapath compared with the plan;
/// the change succeeds only then. If any of that fails filtering is switched off again, and the
/// traffic is said to be unfiltered, or still filtered where even that failed.
pub proof fn late_failures_are_undone(
    port: NeutronPortSnapshotModel,
    plan: AclApplyPlanModel,
    full_resync: bool,
    h: AclHistoryModel,
)
    requires
        asks_for_rules(port),
        rules_replaced(plan, h),
    ensures
        ({
            let step = acl_step(port, Ok(plan), full_resync, h);
            &&& late_failure(plan, h) matches Some(error) ==> {
                &&& h.requiesced is None ==> step is Requiesce
                &&& h.requiesced == Some(OutcomeModel::Done) ==> step == stopped(error, "bypass"@)
                &&& h.requiesced matches Some(OutcomeModel::Failed(again)) ==> step == stopped(
                    error + "; acl_requiesce_compensation_failed:"@ + again,
                    "enforce"@,
                )
            }
            &&& late_failure(plan, h) is None ==> {
                &&& plan.policies.len() > 0 && h.enable_fault is None ==> step
                    == AclStepModel::CheckFault("neutron.acl.before_enable"@)
                &&& (plan.policies.len() > 0 ==> h.enable_fault == Some(OutcomeModel::Done))
                    && h.published is None ==> step is Publish
                &&& (plan.policies.len() > 0 ==> h.enable_fault == Some(OutcomeModel::Done))
                    && h.published == Some(OutcomeModel::Done) ==> {
                    &&& h.precommit_fault is None ==> step == AclStepModel::CheckFault(
                        "neutron.acl.after_enable_before_commit"@,
                    )
                    &&& h.precommit_fault == Some(OutcomeModel::Done) && h.verified is None ==> step
                        is Verify
                    &&& h.precommit_fault == Some(OutcomeModel::Done) && h.verified == Some(
                        OutcomeModel::Done,
                    ) ==> step == AclStepModel::Finish(Ok(plan.force_bypass_reason))
                }
            }
        }),
{
    reveal_strlit("acl");
    assert("acl"@.len() > 0);
    assert(crate::domains::manages_acl(port.managed_domains) == asks_for_rules(port));
}

/// While rules change nothing is filtered and nothing tracked; afterwards filtering is on exactly
/// where there are policies, and tracking is as the plan says, or as it was where the plan does not
/// say.
pub proof fn filtering_is_on_only_with_policies(plan: AclApplyPlanModel, before: bool)
    ensures
        ({
            let change = transition_of(plan, before);
            &&& !change.quiesce.acl_enabled
            &&& !change.quiesce.conntrack_enabled
            &&& change.publish.acl_enabled <==> plan.policies.len() > 0
            &&& plan.conntrack_enabled is Some ==> change.publish.conntrack_enabled
                == plan.conntrack_enabled->0
            &&& plan.conntrack_enabled is None ==> change.publish.conntrack_enabled == before
            &&& change.publish.acl_ingress_hook == change.quiesce.acl_ingress_hook
        }),
{
}

/// Scrubbing a port switches filtering off, and only then replaces its rules, all those under its
/// prefix, by none; it succeeds only where both did.
pub proof fn scrubbing_leaves_no_rules(
    ifname: Seq<char>,
    port_id: Seq<char>,
    quiesced: Option<OutcomeModel>,
    replaced: Option<OutcomeModel>,
)
    ensures
        ({
            let step = purge_step(ifname, port_id, quiesced, replaced);
            &&& quiesced is None ==> step == (PurgeStepModel::Quiesce { ifname })
            &&& quiesced matches Some(OutcomeModel::Failed(error)) ==> step
                == PurgeStepModel::Finish(
                Err(ReconcileErrorModel { details: error, effective_action: "unchanged"@ }),
            )
            &&& quiesced == Some(OutcomeModel::Done) ==> {
                &&& replaced is None ==> step == (PurgeStepModel::ReplaceByNothing {
                    ifname,
                    prefix: "neutron:"@ + port_id + ":"@,
                })
                &&& replaced matches Some(OutcomeModel::Failed(error)) ==> step
                    == PurgeStepModel::Finish(
                    Err(ReconcileErrorModel { details: error, effective_action: "bypass"@ }),
                )
                &&& replaced == Some(OutcomeModel::Done) ==> step == PurgeStepModel::Finish(Ok(()))
            }
        }),
{
}

/// Leaving an interface goes on only where the step before succeeded, and fails with what failed
/// first.
pub proof fn leaving_stops_at_the_first_failure(
    quiesced: Option<OutcomeModel>,
    purged: Option<OutcomeModel>,
    detached: Option<OutcomeModel>,
)
    ensures
        ({
            let step = detach_cleanup_step(quiesced, purged, detached);
            &&& quiesced is None ==> step is Quiesce
            &&& quiesced is Some && quiesced->0 is Failed ==> step
                == DetachCleanupStepModel::Finish(quiesced->0)
            &&& quiesced == Some(OutcomeModel::Done) && purged is None ==> step is Purge
            &&& quiesced == Some(OutcomeModel::Done) && purged is Some && purged->0 is Failed
                ==> step == DetachCleanupStepModel::Finish(purged->0)
            &&& quiesced == Some(OutcomeModel::Done) && purged == Some(OutcomeModel::Done) && detached
                is None ==> step is Detach
            &&& quiesced == Some(OutcomeModel::Done) && purged == Some(OutcomeModel::Done) && detached
                is Some ==> step == DetachCleanupStepModel::Finish(detached->0)
        }),
{
}

/// Switching filtering on is followed by its check and by the comparison; a failure of any of them
/// is undone before it is reported.
pub proof fn completion_is_proved_or_undone(h: CompletionHistoryModel)
    ensures
        ({
            let step = completion_step(h);
            let done = Some(OutcomeModel::Done);
            &&& step is Publish <==> h.published is None
            &&& step is CheckFault <==> h.published == done && h.precommit_fault is None
            &&& step is Verify <==> h.published == done && h.precommit_fault == done && h.verified
                is None
            &&& step == CompletionStepModel::Finish(Ok(())) <==> h.published == done
                && h.precommit_fault == done && h.verified == done
            &&& step is Requiesce ==> h.requiesced is None
            &&& step matches CompletionStepModel::Finish(Err(error)) ==> {
                &&& h.requiesced is Some
                &&& h.requiesced == done ==> error.effective_action == "bypass"@
                &&& h.requiesced != done ==> error.effective_action == "enforce"@
            }
        }),
{
}

/// A port without an ACL is planned to have no rules, and keeps the tracking that it has; a port
/// with one is planned from that ACL, as it was checked.
pub proof fn ports_are_planned_from_their_acl(
    port: NeutronPortSnapshotModel,
    entries: Map<CacheKeyModel, ValidationModel>,
)
    ensures
        port.acl is None ==> {
            let plan = port_plan(port, entries);
            &&& plan is Ok
            &&& plan->Ok_0.groups.len() == 0
            &&& plan->Ok_0.policies.len() == 0
            &&& plan->Ok_0.conntrack_enabled is None
            &&& plan->Ok_0.force_bypass_reason is None
        },
        port.acl matches Some(acl) ==> entries == Map::<CacheKeyModel, ValidationModel>::empty()
            ==> port_plan(port, entries) == translation(port.port_id, acl, validation(acl)),
{
}

} // verus!
