//! What holds of every deletion.

use crate::delete::{
    delete_finish_step, delete_step, domain_named, without_ports, DeleteHistoryModel,
    DeleteStepModel,
};
use crate::domains::domain_name;
use crate::host::OutcomeModel;
use crate::model::{
    NeutronDomainStatusModel, NeutronPortStatusModel, NeutronRuntimeStateModel,
    PendingNeutronIntentModel,
};
use crate::scope::ReplyStatus;
use crate::status::runtime_domains;
use vstd::prelude::*;

verus! {

/// True when nothing stopped a deletion before the interface of the port was looked at.
pub open spec fn under_way(h: DeleteHistoryModel) -> bool {
    h.intent == Some(OutcomeModel::Done) && h.intent_fault == Some(OutcomeModel::Done)
}

/// A deletion asks for a purge only where the interface of the port exists, and there always
/// before anything else is done to it.
pub proof fn only_present_interfaces_are_purged(
    previous: NeutronRuntimeStateModel,
    port_id: Seq<char>,
    h: DeleteHistoryModel,
)
    requires
        previous.ports.dom().contains(port_id),
    ensures
        ({
            let port = previous.ports[port_id];
            let step = delete_step(previous, port_id, h);
            &&& step is Purge <==> under_way(h) && h.interface_exists == Some(true) && h.purged
                is None
            &&& step is Purge ==> step->Purge_ifname == port.ifname && step->Purge_port_id
                == port.port_id
            &&& step is ReadInterface <==> under_way(h) && h.interface_exists is None
            &&& step is ReadInterface ==> step->ReadInterface_ifname == port.ifname
        }),
{
}

/// Where the interface is absent a deletion goes on without a purge: to the check after it, to
/// detaching and to the log; what a purge might have come to makes no difference.
pub proof fn absent_interfaces_are_not_purged(
    previous: NeutronRuntimeStateModel,
    port_id: Seq<char>,
    h: DeleteHistoryModel,
    other: DeleteHistoryModel,
)
    requires
        previous.ports.dom().contains(port_id),
        under_way(h),
        h.interface_exists == Some(false),
        other == (DeleteHistoryModel { purged: other.purged, ..h }),
    ensures
        delete_step(previous, port_id, other) == delete_step(previous, port_id, h),
        h.purge_fault is None ==> delete_step(previous, port_id, h) == DeleteStepModel::CheckFault(
            "neutron.delete.after_acl_purge"@,
        ),
        h.purge_fault == Some(OutcomeModel::Done) && h.detached is None ==> delete_step(
            previous,
            port_id,
            h,
        ) == (DeleteStepModel::Detach { ifname: previous.ports[port_id].ifname }),
        h.purge_fault == Some(OutcomeModel::Done) && h.detached == Some(OutcomeModel::Done)
            && h.precommit == Some(OutcomeModel::Done) && h.commit is None ==> delete_step(
            previous,
            port_id,
            h,
        ) is CommitDelete,
{
}

/// A deletion that met no failure ends well: it is logged, the interface is detached, the removal is
/// logged, and then the port and its status are gone, and nothing waits.
pub proof fn sound_deletions_remove_the_port(
    previous: NeutronRuntimeStateModel,
    port_id: Seq<char>,
    h: DeleteHistoryModel,
)
    requires
        previous.ports.dom().contains(port_id),
        previous.ports[port_id].port_id == port_id,
        under_way(h),
        h.interface_exists == Some(false) || (h.interface_exists == Some(true) && h.purged is Some
            && h.purged->0 is Ok),
        h.purge_fault == Some(OutcomeModel::Done),
        h.detached == Some(OutcomeModel::Done),
        h.precommit == Some(OutcomeModel::Done),
        h.commit is Some ==> h.commit->0 is Done,
    ensures
        ({
            let step = delete_step(previous, port_id, h);
            &&& h.commit is None ==> {
                &&& step is CommitDelete
                &&& !step->CommitDelete_state.ports.dom().contains(port_id)
                &&& !step->CommitDelete_state.port_statuses.dom().contains(port_id)
                &&& step->CommitDelete_state.pending_generation is None
                &&& step->CommitDelete_state.applied_generation == previous.applied_generation
            }
            &&& h.commit is Some ==> {
                &&& step is Finish
                &&& step->status == ReplyStatus::Success
                &&& step->response.port_id == port_id
                &&& step->response.ifname == Some(previous.ports[port_id].ifname)
                &&& step->response.detached
                &&& step->response.status == "ok"@
                &&& step->response.error is None
                &&& step->runtime is Some
                &&& !step->runtime->0.ports.dom().contains(port_id)
                &&& !step->runtime->0.port_statuses.dom().contains(port_id)
                &&& step->runtime->0.pending_generation is None
                &&& step->runtime->0.desired_hash == previous.applied_desired_hash
                &&& step->runtime->0.recovery_cause is None
                &&& step->runtime->0.authority_state == previous.authority_state
            }
        }),
{
}

/// A port that is not managed is answered as not found, with nothing done; that answer is given for
/// no other port.
pub proof fn unknown_ports_are_not_found(
    previous: NeutronRuntimeStateModel,
    port_id: Seq<char>,
    h: DeleteHistoryModel,
)
    ensures
        ({
            let step = delete_step(previous, port_id, h);
            &&& !previous.ports.dom().contains(port_id) ==> {
                &&& step is Finish
                &&& step->status == ReplyStatus::Success
                &&& step->runtime is None
                &&& step->response.port_id == port_id
                &&& step->response.ifname is None
                &&& !step->response.detached
                &&& step->response.status == "not_found"@
                &&& step->response.error is None
            }
            &&& previous.ports.dom().contains(port_id) && step is Finish ==> step->response.status
                != "not_found"@
        }),
{
    reveal_strlit("not_found");
    reveal_strlit("ok");
    reveal_strlit("error");
    assert("not_found"@.len() != "ok"@.len());
    assert("not_found"@.len() != "error"@.len());
}

/// The first thing a deletion does is to log what it is about to do to which port; if that cannot
/// be logged nothing was done.
pub proof fn deletions_are_logged_first(
    previous: NeutronRuntimeStateModel,
    port_id: Seq<char>,
    h: DeleteHistoryModel,
)
    requires
        previous.ports.dom().contains(port_id),
    ensures
        ({
            let step = delete_step(previous, port_id, h);
            &&& h.intent is None ==> {
                &&& step is LogIntent
                &&& step->LogIntent_port_id == port_id
                &&& step->generation == previous.accepted_generation
                &&& step->port == previous.ports[port_id]
            }
            &&& h.intent matches Some(OutcomeModel::Failed(error)) ==> {
                &&& step is Finish
                &&& step->runtime is None
                &&& step->status == ReplyStatus::InternalServerError
                &&& step->response.error == Some("wal_intent_failed:"@ + error)
            }
        }),
{
}

/// What stopped a deletion, if anything did: the first step that failed, in the order of the steps.
pub open spec fn stopped_by(h: DeleteHistoryModel) -> Option<Seq<char>> {
    if h.intent_fault is Some && h.intent_fault->0 is Failed {
        Some(h.intent_fault->0->Failed_0)
    } else if h.interface_exists == Some(true) && h.purged is Some && h.purged->0 is Err {
        Some("neutron_acl_purge_failed:"@ + h.purged->0->Err_0.details)
    } else if h.purge_fault is Some && h.purge_fault->0 is Failed {
        Some(h.purge_fault->0->Failed_0)
    } else if h.detached is Some && h.detached->0 is Failed {
        Some(h.detached->0->Failed_0)
    } else if h.precommit is Some && h.precommit->0 is Failed {
        Some(h.precommit->0->Failed_0)
    } else if h.commit is Some && h.commit->0 is Failed {
        Some("wal_commit_failed:"@ + h.commit->0->Failed_0)
    } else {
        None
    }
}

/// A deletion that was stopped blocks the port: the port stays, its status is blocked for the reason
/// that stopped it, that state is logged before it is published, and the answer is an error with the
/// reason.
pub proof fn stopped_deletions_block_the_port(
    previous: NeutronRuntimeStateModel,
    port_id: Seq<char>,
    h: DeleteHistoryModel,
)
    requires
        previous.ports.dom().contains(port_id),
        previous.ports[port_id].port_id == port_id,
        h.intent == Some(OutcomeModel::Done),
        delete_step(previous, port_id, h) is Finish || delete_step(previous, port_id, h)
            is Checkpoint,
        h.commit != Some(OutcomeModel::Done),
    ensures
        ({
            let step = delete_step(previous, port_id, h);
            &&& stopped_by(h) is Some
            &&& step is Checkpoint <==> h.checkpoint is None
            &&& step is Checkpoint ==> {
                let state = step->Checkpoint_state;
                &&& state.ports == previous.ports.insert(port_id, previous.ports[port_id])
                &&& state.authority_state == "blocked_recovery_required"@
                &&& state.pending_generation == Some(previous.accepted_generation)
                &&& state.port_statuses[port_id].status == "blocked"@
                &&& state.port_statuses[port_id].reason == stopped_by(h)
            }
            &&& step is Finish ==> {
                let next = step->runtime->0;
                &&& step->runtime is Some
                &&& next.authority_state == "blocked_recovery_required"@
                &&& next.pending_generation == Some(previous.accepted_generation)
                &&& next.desired_hash is None
                &&& next.port_statuses.dom().contains(port_id)
                &&& next.port_statuses[port_id].port_id == port_id
                &&& next.port_statuses[port_id].ifname == previous.ports[port_id].ifname
                &&& next.port_statuses[port_id].status == "blocked"@
                &&& next.port_statuses[port_id].reason == stopped_by(h)
                &&& step->status == ReplyStatus::InternalServerError
                &&& step->response.port_id == port_id
                &&& step->response.ifname == Some(previous.ports[port_id].ifname)
                &&& !step->response.detached
                &&& step->response.status == "error"@
                &&& h.checkpoint == Some(OutcomeModel::Done) ==> step->response.error == stopped_by(
                    h,
                )
                &&& h.checkpoint matches Some(OutcomeModel::Failed(error)) ==> {
                    &&& step->response.error == Some(
                        stopped_by(h)->0 + "; delete_blocked_checkpoint_failed:"@ + error,
                    )
                    &&& next.wal_status == "delete_blocked_checkpoint_failed"@
                }
            }
        }),
{
}

/// A stopped deletion says what became of the rules: as long as none was touched they are in force
/// as before, and once they are scrubbed nothing is filtered.
pub proof fn stopped_deletions_tell_of_the_rules(
    previous: NeutronRuntimeStateModel,
    port_id: Seq<char>,
    h: DeleteHistoryModel,
    i: int,
)
    requires
        previous.ports.dom().contains(port_id),
        previous.ports[port_id].port_id == port_id,
        h.intent == Some(OutcomeModel::Done),
        delete_step(previous, port_id, h) is Finish,
        h.commit != Some(OutcomeModel::Done),
        0 <= i < delete_step(previous, port_id, h)->runtime->0.port_statuses[port_id].domains.len(),
    ensures
        ({
            let domain =
                delete_step(previous, port_id, h)->runtime->0.port_statuses[port_id].domains[i];
            &&& domain.status == "blocked"@
            &&& domain.reason == stopped_by(h)
            &&& domain.domain != "acl"@ ==> domain.effective_action is None
            &&& domain.domain == "acl"@ ==> {
                if h.intent_fault is Some && h.intent_fault->0 is Failed {
                    domain.effective_action == Some("unchanged"@)
                } else if h.interface_exists == Some(true) && h.purged is Some && h.purged->0
                    is Err {
                    domain.effective_action == Some(h.purged->0->Err_0.effective_action)
                } else {
                    domain.effective_action == Some("bypass"@)
                }
            }
        }),
{
}

proof fn lemma_without(
    runtime: NeutronRuntimeStateModel,
    port_ids: Seq<Seq<char>>,
    n: int,
    k: Seq<char>,
)
    requires
        0 <= n <= port_ids.len(),
    ensures
        ({
            let next = without_ports(runtime, port_ids, n);
            &&& next.ports.dom().contains(k) <==> runtime.ports.dom().contains(k)
                && !port_ids.take(n).contains(k)
            &&& next.port_statuses.dom().contains(k) <==> runtime.port_statuses.dom().contains(k)
                && !port_ids.take(n).contains(k)
            &&& next.ports.dom().contains(k) ==> next.ports[k] == runtime.ports[k]
            &&& next.port_statuses.dom().contains(k) ==> next.port_statuses[k]
                == runtime.port_statuses[k]
            &&& next.accepted_generation == runtime.accepted_generation
            &&& next.applied_generation == runtime.applied_generation
            &&& next.applied_desired_hash == runtime.applied_desired_hash
            &&& next.authority_state == runtime.authority_state
        }),
    decreases n,
{
    if n > 0 {
        lemma_without(runtime, port_ids, n - 1, k);
        assert(port_ids.take(n) =~= port_ids.take(n - 1).push(port_ids[n - 1]));
        if port_ids.take(n - 1).contains(k) {
            let i = port_ids.take(n - 1).index_of(k);
            assert(port_ids.take(n)[i] == k);
        }
        if k == port_ids[n - 1] {
            assert(port_ids.take(n)[n - 1] == k);
        } else if port_ids.take(n).contains(k) {
            let i = port_ids.take(n).index_of(k);
            assert(port_ids.take(n - 1)[i] == k);
        }
    }
}

/// A deletion that was interrupted and is finished later removes exactly the ports that it was
/// logged for, and only once the removal is logged.
pub proof fn finished_deletions_remove_their_ports(
    intent: PendingNeutronIntentModel,
    previous: NeutronRuntimeStateModel,
    recovered: Map<Seq<char>, NeutronPortStatusModel>,
    commit: Option<OutcomeModel>,
    k: Seq<char>,
)
    ensures
        ({
            let step = delete_finish_step(intent, previous, recovered, false, commit);
            &&& commit is None ==> {
                &&& step is CommitDelete
                &&& step->state.ports.dom().contains(k) <==> previous.ports.dom().contains(k)
                    && !intent.port_ids.contains(k)
                &&& step->state.port_statuses.dom().contains(k)
                    <==> previous.port_statuses.dom().contains(k) && !intent.port_ids.contains(k)
            }
            &&& commit == Some(OutcomeModel::Done) ==> {
                let next = step->Publish_0;
                &&& step is Publish
                &&& next.ports.dom().contains(k) <==> previous.ports.dom().contains(k)
                    && !intent.port_ids.contains(k)
                &&& next.ports.dom().contains(k) ==> next.ports[k] == previous.ports[k]
                &&& next.port_statuses.dom().contains(k) <==> previous.port_statuses.dom().contains(
                    k,
                ) && !intent.port_ids.contains(k)
                &&& next.pending_generation is None
                &&& next.desired_hash == previous.applied_desired_hash
                &&& next.applied_generation == previous.applied_generation
                &&& next.applied_desired_hash == previous.applied_desired_hash
                &&& next.recovery_cause is None
            }
        }),
{
    lemma_without(previous, intent.port_ids, intent.port_ids.len() as int, k);
    assert(intent.port_ids.take(intent.port_ids.len() as int) =~= intent.port_ids);
}

/// A deletion that could not be finished leaves the host blocked, with no port gone and what was
/// applied as it was.
pub proof fn unfinished_deletions_stay_blocked(
    intent: PendingNeutronIntentModel,
    previous: NeutronRuntimeStateModel,
    recovered: Map<Seq<char>, NeutronPortStatusModel>,
    recovery_failed: bool,
    commit: Option<OutcomeModel>,
    k: Seq<char>,
)
    requires
        recovery_failed || (commit is Some && commit->0 is Failed),
    ensures
        ({
            let step = delete_finish_step(intent, previous, recovered, recovery_failed, commit);
            let next = step->Publish_0;
            &&& step is Publish
            &&& next.authority_state == "blocked_recovery_required"@
            &&& next.pending_generation == Some(intent.generation)
            &&& next.desired_hash is None
            &&& next.applied_generation == previous.applied_generation
            &&& next.applied_desired_hash == previous.applied_desired_hash
            &&& next.wal_status == if recovery_failed {
                "intent_recovery_blocked"@
            } else {
                "delete_recovery_commit_failed"@
            }
            &&& previous.ports.dom().contains(k) ==> next.ports.dom().contains(k)
            &&& intent.port_ids == seq![k] && previous.ports.dom().contains(k)
                && previous.ports[k].port_id == k ==> {
                &&& next.ports[k] == previous.ports[k]
                &&& next.port_statuses.dom().contains(k)
                &&& next.port_statuses[k].port_id == k
                &&& next.port_statuses[k].status == "blocked"@
                &&& next.port_statuses[k].reason == Some(
                    if recovered.dom().contains(k) && recovered[k].reason is Some {
                        recovered[k].reason->0
                    } else {
                        next.wal_status
                    },
                )
            }
        }),
{
}

/// What is logged of a deletion names the domains that it touches: attachment, and all that the port
/// is managed in.
pub proof fn deletions_name_their_domains(
    previous: NeutronRuntimeStateModel,
    port_id: Seq<char>,
    h: DeleteHistoryModel,
    d: Seq<char>,
)
    requires
        previous.ports.dom().contains(port_id),
        h.intent is None,
    ensures
        ({
            let port = previous.ports[port_id];
            delete_step(previous, port_id, h)->affected_domains.contains(d) <==> d == "attach"@ || (
            d.len() > 0 && exists|i: int|
                0 <= i < port.managed_domains.len() && domain_name(
                    #[trigger] port.managed_domains[i],
                ) == d)
        }),
{
    let port = previous.ports[port_id];
    let ports = seq![port];
    crate::admission_laws::lemma_affected_domains(ports, d);
    if exists|i: int|
        0 <= i < port.managed_domains.len() && domain_name(#[trigger] port.managed_domains[i])
            == d {
        let i = choose|i: int|
            0 <= i < port.managed_domains.len() && domain_name(#[trigger] port.managed_domains[i])
                == d;
        assert(domain_name(ports[0].managed_domains[i]) == d);
    }
    if exists|i: int, j: int|
        0 <= i < ports.len() && 0 <= j < ports[i].managed_domains.len() && domain_name(
            #[trigger] ports[i].managed_domains[j],
        ) == d {
        let (i, j) = choose|i: int, j: int|
            0 <= i < ports.len() && 0 <= j < ports[i].managed_domains.len() && domain_name(
                #[trigger] ports[i].managed_domains[j],
            ) == d;
        assert(domain_name(port.managed_domains[j]) == d);
    }
}

/// A deletion that could not be finished says of the rules what cleaning up said of them, where that
/// is that they are unchanged or let everything through; otherwise they are unchanged as long as
/// cleaning up failed, and let everything through once it did not.
pub proof fn unfinished_deletions_tell_of_the_rules(
    intent: PendingNeutronIntentModel,
    previous: NeutronRuntimeStateModel,
    recovered: Map<Seq<char>, NeutronPortStatusModel>,
    recovery_failed: bool,
    commit: Option<OutcomeModel>,
    k: Seq<char>,
    i: int,
)
    requires
        recovery_failed || (commit is Some && commit->0 is Failed),
        intent.port_ids == seq![k],
        previous.ports.dom().contains(k),
        previous.ports[k].port_id == k,
        0 <= i < delete_finish_step(
            intent,
            previous,
            recovered,
            recovery_failed,
            commit,
        )->Publish_0.port_statuses[k].domains.len(),
    ensures
        ({
            let next = delete_finish_step(
                intent,
                previous,
                recovered,
                recovery_failed,
                commit,
            )->Publish_0;
            let state = next.port_statuses[k].domains[i];
            &&& state.status == "blocked"@
            &&& state.reason == next.port_statuses[k].reason
            &&& state.domain != "acl"@ ==> state.effective_action is None
            &&& state.domain == "acl"@ ==> {
                ||| state.effective_action == Some(
                    if recovery_failed {
                        "unchanged"@
                    } else {
                        "bypass"@
                    },
                )
                ||| recovered.dom().contains(k) && exists|j: int|
                    0 <= j < recovered[k].domains.len() && (
                    #[trigger] recovered[k].domains[j]).domain == "acl"@
                        && recovered[k].domains[j].effective_action == state.effective_action && (
                    state.effective_action == Some("unchanged"@) || state.effective_action == Some(
                        "bypass"@,
                    ))
            }
            &&& state.domain == "acl"@ && (!recovered.dom().contains(k) || recovered[k].domains.len()
                == 0) ==> state.effective_action == Some(
                if recovery_failed {
                    "unchanged"@
                } else {
                    "bypass"@
                },
            )
        }),
{
    if recovered.dom().contains(k) {
        lemma_named(recovered[k].domains, 0);
    }
}

proof fn lemma_named(domains: Seq<NeutronDomainStatusModel>, i: int)
    requires
        0 <= i,
    ensures
        domain_named(domains, "acl"@, i) matches Some(found) ==> found.domain == "acl"@ && exists|
            j: int,
        | 0 <= j < domains.len() && #[trigger] domains[j] == found,
    decreases domains.len() - i,
{
    if i < domains.len() && domains[i].domain != "acl"@ {
        lemma_named(domains, i + 1);
    } else if i < domains.len() {
        assert(domains[i].domain == "acl"@);
    }
}

/// A stopped deletion tells of the attachment of the port and of every domain that it is managed in.
pub proof fn stopped_deletions_tell_of_every_domain(
    previous: NeutronRuntimeStateModel,
    port_id: Seq<char>,
    h: DeleteHistoryModel,
)
    requires
        previous.ports.dom().contains(port_id),
        previous.ports[port_id].port_id == port_id,
        h.intent == Some(OutcomeModel::Done),
        delete_step(previous, port_id, h) is Finish,
        h.commit != Some(OutcomeModel::Done),
    ensures
        ({
            let told = delete_step(previous, port_id, h)->runtime->0.port_statuses[port_id];
            let names = runtime_domains(previous.ports[port_id].managed_domains);
            &&& told.generation == previous.accepted_generation
            &&& told.desired_hash is None
            &&& told.managed_domains == previous.ports[port_id].managed_domains
            &&& told.domains.len() == names.len()
            &&& forall|i: int|
                0 <= i < names.len() ==> (#[trigger] told.domains[i]).domain == names[i]
        }),
{
}

} // verus!
