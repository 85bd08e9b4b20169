//! What holds of every recovery.

use crate::committed::{
    committed_step, interfaces_to_claim, missing_among, missing_interfaces, restored_mark,
};
use crate::domains::{
    domain_name, domain_set, lemma_domain_set_finite, recovery_domains, ManagedAclPublicationMode,
};
use crate::health::ReconcileResultModel;
use crate::host::OutcomeModel;
use crate::intent::{
    intent_recovery_step, port_recovery_step, statuses_after_recovery, unsupported_recovery,
    IntentRecoveryStepModel, PortRecoveryHistoryModel, PortRecoveryStepModel, RecoveryModel,
};
use crate::model::{
    ManagedNeutronPortModel, NeutronPortStatusModel, NeutronRuntimeStateModel,
    NeutronSnapshotRequestModel, NeutronWalReplayModel, PendingNeutronIntentModel,
};
use crate::ordered::{in_order, lemma_in_order, values_in_order};
use crate::recovery::{
    pending_identity_fault, pending_recovery_step, recovered_runtime, recovery_preflight_refusal,
    PendingRecoveryStepModel, RecoverRequestModel,
};
use crate::scope::ReplyStatus;
use crate::submit::{
    applied_response, background_failed, snapshot_step, uncommitted_recovery, uncommitted_step,
    SnapshotHistoryModel, SnapshotStepModel,
};
use crate::transaction::{bare_port, intent_ports, ports_of_intent};
use vstd::prelude::*;

verus! {

/// True when a port was managed in a domain, or the intent was about it.
pub open spec fn concerns(
    intent: PendingNeutronIntentModel,
    port: ManagedNeutronPortModel,
    domain: Seq<char>,
) -> bool {
    ||| exists|i: int|
        0 <= i < port.managed_domains.len() && domain_name(#[trigger] port.managed_domains[i])
            == domain
    ||| exists|i: int|
        0 <= i < intent.affected_domains.len() && domain_name(
            #[trigger] intent.affected_domains[i],
        ) == domain
}

/// True when nothing but attachment and rules is to be cleaned up.
pub open spec fn concerns_known_domains(
    intent: PendingNeutronIntentModel,
    port: ManagedNeutronPortModel,
) -> bool {
    forall|domain: Seq<char>| #[trigger]
        concerns(intent, port, domain) ==> domain.len() == 0 || domain == "attach"@ || domain
            == "acl"@
}

proof fn lemma_recovery_domains(intent: PendingNeutronIntentModel, port: ManagedNeutronPortModel)
    ensures
        ({
            let domains = recovery_domains(intent, port);
            &&& forall|d: Seq<char>| #[trigger]
                domains.contains(d) <==> (d.len() > 0 && concerns(intent, port, d)) || (d
                    == "attach"@ && port.ifname.len() > 0)
            &&& unsupported_recovery(domains) is None <==> concerns_known_domains(intent, port)
            &&& domains.contains("acl"@) <==> concerns(intent, port, "acl"@)
        }),
{
    reveal_strlit("acl");
    reveal_strlit("attach");
    assert("acl"@.len() == 3 && "attach"@.len() == 6);
    let domains = recovery_domains(intent, port);
    lemma_domain_set_finite(port.managed_domains);
    lemma_domain_set_finite(intent.affected_domains);
    let named = domain_set(port.managed_domains).union(domain_set(intent.affected_domains));
    lemma_in_order::<String>(named);
    lemma_in_order::<String>(named.insert("attach"@));
    assert forall|d: Seq<char>| #[trigger] named.contains(d) <==> d.len() > 0 && concerns(
        intent,
        port,
        d,
    ) by {}
    let p = |domain: Seq<char>| !crate::domains::implemented(domain);
    if concerns_known_domains(intent, port) {
        if domains.filter(p).len() > 0 {
            let d = domains.filter(p)[0];
            domains.lemma_filter_pred(p, 0);
            assert(domains.filter(p).contains(d));
            domains.lemma_filter_contains_rev(p, d);
            assert(domains.contains(d));
            assert(concerns(intent, port, d));
            assert(false);
        }
    } else {
        let d = choose|d: Seq<char>| #[trigger]
            concerns(intent, port, d) && !(d.len() == 0 || d == "attach"@ || d == "acl"@);
        assert(domains.contains(d));
        let k = domains.index_of(d);
        domains.lemma_filter_contains(p, k);
        assert(domains.filter(p).contains(d));
    }
}

/// Cleaning up after a port that was left half done takes its interface, scrubs its rules where it
/// has any, and lets go of the interface where the port was new or is to be deleted; a port that was
/// managed before stays attached. It succeeds only where all of that did.
pub proof fn half_done_ports_are_cleaned_up(
    intent: PendingNeutronIntentModel,
    port: ManagedNeutronPortModel,
    committed_before: bool,
    h: PortRecoveryHistoryModel,
)
    requires
        concerns_known_domains(intent, port),
        port.ifname.len() > 0,
    ensures
        ({
            let step = port_recovery_step(intent, port, committed_before, h);
            let rules = concerns(intent, port, "acl"@);
            let leave = intent.kind == "delete"@ || !committed_before;
            let scrubbed = !rules || (h.purged is Some && h.purged->0 is Ok);
            let held = h.attached == Some(OutcomeModel::Done);
            &&& h.attached is None ==> step == (PortRecoveryStepModel::Attach {
                ifname: port.ifname,
                manages_acl: rules,
            })
            &&& held && rules && h.purged is None ==> step == (PortRecoveryStepModel::Purge {
                ifname: port.ifname,
                port_id: port.port_id,
            })
            &&& held && scrubbed && leave && h.detached is None ==> step == (
            PortRecoveryStepModel::Detach { ifname: port.ifname })
            &&& step is Detach ==> leave
            &&& step is Purge ==> rules
            &&& step matches PortRecoveryStepModel::Finish(recovery) ==> {
                &&& recovery.ok <==> held && scrubbed && (leave ==> h.detached == Some(
                    OutcomeModel::Done,
                ))
                &&& recovery.ok ==> recovery.status == "recovered"@ && recovery.reason == Some(
                    "wal_intent_recovered_pending_full_resync"@,
                )
                &&& !recovery.ok ==> recovery.status == "blocked"@ && recovery.reason is Some
                &&& h.attached matches Some(OutcomeModel::Failed(error)) ==> recovery.reason
                    == Some("attach_recovery_failed:"@ + error)
                &&& held && rules && h.purged is Some && h.purged->0 is Err ==> recovery.reason
                    == Some("acl_recovery_failed:"@ + h.purged->0->Err_0.details)
                &&& held && scrubbed && leave && h.detached is Some && h.detached->0 is Failed
                    ==> recovery.reason == Some(
                    "detach_recovery_failed:"@ + h.detached->0->Failed_0,
                )
            }
        }),
{
    lemma_recovery_domains(intent, port);
}

/// A port whose domains cannot all be cleaned up, or that has rules but no interface to find them
/// by, is left blocked, and nothing is asked of the host for it.
pub proof fn unknown_ports_stay_blocked(
    intent: PendingNeutronIntentModel,
    port: ManagedNeutronPortModel,
    committed_before: bool,
    h: PortRecoveryHistoryModel,
)
    requires
        !concerns_known_domains(intent, port) || port.ifname.len() == 0,
    ensures
        ({
            let step = port_recovery_step(intent, port, committed_before, h);
            &&& step is Finish
            &&& step->Finish_0.ok <==> concerns_known_domains(intent, port) && !concerns(
                intent,
                port,
                "acl"@,
            )
            &&& !step->Finish_0.ok ==> step->Finish_0.status == "blocked"@
            &&& concerns_known_domains(intent, port) && concerns(intent, port, "acl"@)
                ==> step->Finish_0.reason == Some("missing_ifname_for_recovery"@)
        }),
{
    lemma_recovery_domains(intent, port);
}

/// What is said of the rules of a port that was cleaned up is what was done to them: scrubbed rules
/// filter nothing, and rules that could not be scrubbed are as the failure left them.
pub proof fn cleaned_up_rules_filter_nothing(
    intent: PendingNeutronIntentModel,
    port: ManagedNeutronPortModel,
    committed_before: bool,
    h: PortRecoveryHistoryModel,
    i: int,
)
    requires
        concerns_known_domains(intent, port),
        port.ifname.len() > 0,
        h.attached == Some(OutcomeModel::Done),
        port_recovery_step(intent, port, committed_before, h) is Finish,
        0 <= i < port_recovery_step(intent, port, committed_before, h)->Finish_0.domains.len(),
    ensures
        ({
            let state = port_recovery_step(intent, port, committed_before, h)->Finish_0.domains[i];
            &&& state.domain == "attach"@ || state.domain == "acl"@
            &&& state.domain == "acl"@ ==> {
                &&& concerns(intent, port, "acl"@)
                &&& h.purged is Some
                &&& h.purged->0 is Ok ==> state.status == "recovered"@ && state.effective_action
                    == Some("bypass"@)
                &&& h.purged->0 is Err ==> state.status == "blocked"@ && state.effective_action
                    == Some(h.purged->0->Err_0.effective_action)
            }
        }),
{
    lemma_recovery_domains(intent, port);
    reveal_strlit("acl");
    reveal_strlit("attach");
    assert("acl"@.len() != "attach"@.len());
}

proof fn lemma_intent_ports(
    intent: PendingNeutronIntentModel,
    current: Map<Seq<char>, ManagedNeutronPortModel>,
    n: int,
)
    requires
        0 <= n <= intent.port_ids.len(),
    ensures
        ({
            let all = intent_ports(intent, current, n);
            &&& all.dom().finite()
            &&& forall|i: int|
                0 <= i < n ==> all.dom().contains(#[trigger] intent.port_ids[i])
            &&& forall|i: int|
                0 <= i < intent.affected_ports.len() ==> all.dom().contains(
                    (#[trigger] intent.affected_ports[i]).port_id,
                )
            &&& forall|k: Seq<char>| #[trigger]
                all.dom().contains(k) ==> {
                    ||| exists|i: int|
                        0 <= i < intent.affected_ports.len() && (
                        #[trigger] intent.affected_ports[i]).port_id == k && all[k]
                            == intent.affected_ports[i]
                    ||| (exists|i: int| 0 <= i < n && #[trigger] intent.port_ids[i] == k) && (if
                    current.dom().contains(k) {
                        all[k] == current[k]
                    } else {
                        all[k] == bare_port(k, intent.affected_domains)
                    })
                }
        }),
    decreases n,
{
    let base = crate::transaction::with_ports(
        Map::empty(),
        intent.affected_ports,
        intent.affected_ports.len() as int,
    );
    crate::apply_laws::lemma_with_ports(
        Map::empty(),
        intent.affected_ports,
        intent.affected_ports.len() as int,
    );
    if n <= 0 {
        assert forall|k: Seq<char>| #[trigger] base.dom().contains(k) implies exists|i: int|
            0 <= i < intent.affected_ports.len() && (#[trigger] intent.affected_ports[i]).port_id
                == k && base[k] == intent.affected_ports[i] by {
            crate::admission_laws::lemma_with_ports_from(
                Map::empty(),
                intent.affected_ports,
                intent.affected_ports.len() as int,
                k,
            );
        }
    } else {
        lemma_intent_ports(intent, current, n - 1);
        let before = intent_ports(intent, current, n - 1);
        let all = intent_ports(intent, current, n);
        let id = intent.port_ids[n - 1];
        assert forall|k: Seq<char>| #[trigger] all.dom().contains(k) implies {
            ||| exists|i: int|
                0 <= i < intent.affected_ports.len() && (
                #[trigger] intent.affected_ports[i]).port_id == k && all[k]
                    == intent.affected_ports[i]
            ||| (exists|i: int| 0 <= i < n && #[trigger] intent.port_ids[i] == k) && (if
            current.dom().contains(k) {
                all[k] == current[k]
            } else {
                all[k] == bare_port(k, intent.affected_domains)
            })
        } by {
            if before.dom().contains(k) {
                assert(all[k] == before[k]);
            } else {
                assert(k == id && intent.port_ids[n - 1] == k);
            }
        }
    }
}

/// Every port that an intent names or lists is cleaned up, and no other: as it is listed, or else as
/// it is managed, or else by its name alone.
pub proof fn every_port_of_an_intent_is_cleaned_up(
    intent: PendingNeutronIntentModel,
    current: Map<Seq<char>, ManagedNeutronPortModel>,
    k: Seq<char>,
)
    ensures
        ({
            let ports = ports_of_intent(intent, current);
            &&& forall|i: int|
                0 <= i < ports.len() ==> intent.affected_ports.contains(#[trigger] ports[i]) || (
                exists|j: int|
                    0 <= j < intent.port_ids.len() && {
                        let id = #[trigger] intent.port_ids[j];
                        if current.dom().contains(id) {
                            ports[i] == current[id]
                        } else {
                            ports[i].port_id == id && ports[i].ifname.len() == 0
                        }
                    })
            &&& intent.affected_ports.len() == 0 && intent.port_ids.contains(k)
                && current.dom().contains(k) ==> ports.contains(current[k])
            &&& forall|i: int|
                0 <= i < intent.affected_ports.len() ==> exists|j: int|
                    0 <= j < ports.len() && (#[trigger] ports[j]).port_id == (
                    #[trigger] intent.affected_ports[i]).port_id
        }),
{
    let n = intent.port_ids.len() as int;
    let all = intent_ports(intent, current, n);
    lemma_intent_ports(intent, current, n);
    let keys = in_order::<String>(all.dom());
    lemma_in_order::<String>(all.dom());
    let ports = ports_of_intent(intent, current);
    assert forall|i: int| 0 <= i < ports.len() implies intent.affected_ports.contains(
        #[trigger] ports[i],
    ) || (exists|j: int|
        0 <= j < intent.port_ids.len() && {
            let id = #[trigger] intent.port_ids[j];
            if current.dom().contains(id) {
                ports[i] == current[id]
            } else {
                ports[i].port_id == id && ports[i].ifname.len() == 0
            }
        }) by {
        assert(keys.contains(keys[i]));
        assert(all.dom().contains(keys[i]));
        assert(ports[i] == all[keys[i]]);
    }
    if intent.affected_ports.len() == 0 && intent.port_ids.contains(k) && current.dom().contains(
        k,
    ) {
        let j = intent.port_ids.index_of(k);
        assert(all.dom().contains(intent.port_ids[j]));
        assert(keys.contains(k));
        let i = keys.index_of(k);
        assert(ports[i] == all[k]);
    }
    assert forall|i: int| 0 <= i < intent.affected_ports.len() implies exists|j: int|
        0 <= j < ports.len() && (#[trigger] ports[j]).port_id == (
        #[trigger] intent.affected_ports[i]).port_id by {
        let id = intent.affected_ports[i].port_id;
        assert(all.dom().contains(id));
        assert(keys.contains(id));
        let j = keys.index_of(id);
        assert(ports[j] == all[id]);
        if exists|q: int|
            0 <= q < intent.affected_ports.len() && (#[trigger] intent.affected_ports[q]).port_id
                == id && all[id] == intent.affected_ports[q] {
        } else {
            lemma_listed_first(intent, current, n, i);
        }
    }
}

proof fn lemma_listed_first(
    intent: PendingNeutronIntentModel,
    current: Map<Seq<char>, ManagedNeutronPortModel>,
    n: int,
    i: int,
)
    requires
        0 <= n <= intent.port_ids.len(),
        0 <= i < intent.affected_ports.len(),
    ensures
        ({
            let id = intent.affected_ports[i].port_id;
            let all = intent_ports(intent, current, n);
            all.dom().contains(id) && exists|q: int|
                0 <= q < intent.affected_ports.len() && (
                #[trigger] intent.affected_ports[q]).port_id == id && all[id]
                    == intent.affected_ports[q]
        }),
    decreases n,
{
    if n <= 0 {
        lemma_intent_ports(intent, current, 0);
    } else {
        lemma_listed_first(intent, current, n - 1, i);
    }
}

proof fn lemma_statuses(
    intent: PendingNeutronIntentModel,
    statuses: Map<Seq<char>, NeutronPortStatusModel>,
    ports: Seq<ManagedNeutronPortModel>,
    recoveries: Seq<RecoveryModel>,
    n: int,
    k: Seq<char>,
)
    requires
        0 <= n <= ports.len(),
        n <= recoveries.len(),
    ensures
        ({
            let next = statuses_after_recovery(intent, statuses, ports, recoveries, n);
            let named = exists|i: int| 0 <= i < n && (#[trigger] ports[i]).port_id == k;
            &&& !named ==> next.dom().contains(k) == statuses.dom().contains(k) && next[k]
                == statuses[k]
            &&& named ==> next.dom().contains(k) && exists|i: int|
                0 <= i < n && (#[trigger] ports[i]).port_id == k && next[k].status
                    == recoveries[i].status && next[k].reason == recoveries[i].reason
                    && next[k].domains == recoveries[i].domains
            &&& named ==> next[k].port_id == k && next[k].generation == intent.generation
                && next[k].desired_hash == intent.desired_hash
        }),
    decreases n,
{
    if n > 0 {
        lemma_statuses(intent, statuses, ports, recoveries, n - 1, k);
        if ports[n - 1].port_id == k {
            assert(ports[n - 1].port_id == k);
        } else {
            let before = statuses_after_recovery(intent, statuses, ports, recoveries, n - 1);
            let next = statuses_after_recovery(intent, statuses, ports, recoveries, n);
            assert(next[k] == before[k]);
        }
    }
}

/// Cleaning up after an unfinished snapshot goes port by port, and then leaves the snapshot pending:
/// to be sent again in full where every port was cleaned up, and blocked where one was not. Every
/// port is reported as its cleaning up came out, and no other is touched.
pub proof fn unfinished_snapshots_stay_pending(
    intent: PendingNeutronIntentModel,
    previous: NeutronRuntimeStateModel,
    recoveries: Seq<RecoveryModel>,
    commit: Option<OutcomeModel>,
    k: Seq<char>,
)
    requires
        intent.kind != "delete"@,
        intent.recovery_cause != Some("inventory_unavailable"@),
        ports_of_intent(intent, previous.ports).len() > 0,
    ensures
        ({
            let ports = ports_of_intent(intent, previous.ports);
            let step = intent_recovery_step(intent, previous, recoveries, commit);
            let failed = exists|i: int| 0 <= i < ports.len() && !(#[trigger] recoveries[i]).ok;
            &&& recoveries.len() < ports.len() ==> {
                let port = ports[recoveries.len() as int];
                step == (IntentRecoveryStepModel::RecoverPort {
                    port,
                    committed_before_intent: previous.ports.dom().contains(port.port_id),
                })
            }
            &&& recoveries.len() >= ports.len() && commit is None ==> {
                &&& step is Commit
                &&& step->Commit_state.pending_generation == Some(intent.generation)
                &&& step->Commit_state.ports == previous.ports
            }
            &&& recoveries.len() >= ports.len() && commit == Some(OutcomeModel::Done) ==> {
                let next = step->Publish_0;
                &&& step is Publish
                &&& next.pending_generation == Some(intent.generation)
                &&& next.desired_hash == intent.desired_hash
                &&& next.authority_state == if failed {
                    "blocked_recovery_required"@
                } else {
                    "recovered_pending_full_resync"@
                }
                &&& (exists|i: int| 0 <= i < ports.len() && (#[trigger] ports[i]).port_id == k)
                    ==> exists|i: int|
                    0 <= i < ports.len() && (#[trigger] ports[i]).port_id == k
                        && next.port_statuses[k].status == recoveries[i].status
                        && next.port_statuses[k].reason == recoveries[i].reason
                &&& !(exists|i: int| 0 <= i < ports.len() && (#[trigger] ports[i]).port_id == k)
                    ==> next.port_statuses.dom().contains(k)
                    == previous.port_statuses.dom().contains(k) && next.port_statuses[k]
                    == previous.port_statuses[k]
            }
            &&& recoveries.len() >= ports.len() && commit is Some && commit->0 is Failed ==> {
                &&& step is Publish
                &&& step->Publish_0.authority_state == "wal_recovery_commit_failed"@
                &&& step->Publish_0.pending_generation == Some(intent.generation)
                &&& step->Publish_0.port_statuses == previous.port_statuses
            }
        }),
{
    let ports = ports_of_intent(intent, previous.ports);
    if recoveries.len() >= ports.len() {
        lemma_statuses(
            intent,
            previous.port_statuses,
            ports,
            recoveries,
            ports.len() as int,
            k,
        );
    }
}

/// A request to give up a pending snapshot is heard only where it names that very snapshot, by its
/// generation and its hash.
pub proof fn only_the_pending_snapshot_is_given_up(
    runtime: NeutronRuntimeStateModel,
    request: RecoverRequestModel,
)
    ensures
        pending_identity_fault(runtime, request) is None <==> runtime.pending_generation == Some(
            request.expected_pending_generation,
        ) && runtime.desired_hash == request.expected_desired_hash,
        pending_identity_fault(runtime, request) matches Some(error) ==> {
            &&& error.status == ReplyStatus::Conflict
            &&& runtime.pending_generation is None ==> error.code == "no_pending_snapshot"@
            &&& runtime.pending_generation is Some && runtime.pending_generation != Some(
                request.expected_pending_generation,
            ) ==> error.code == "pending_generation_mismatch"@
            &&& runtime.pending_generation == Some(request.expected_pending_generation)
                ==> error.code == "pending_desired_hash_mismatch"@
        },
{
}

/// A pending snapshot is given up only where there is something to go back to, or nothing was ever
/// applied, and only where nobody is applying it.
pub proof fn active_snapshots_are_not_given_up(
    runtime: NeutronRuntimeStateModel,
    request: RecoverRequestModel,
)
    ensures
        recovered_runtime(runtime, request) is Ok <==> {
            &&& runtime.pending_generation == Some(request.expected_pending_generation)
            &&& runtime.desired_hash == request.expected_desired_hash
            &&& runtime.authority_state != "applying"@
            &&& runtime.authority_state != "accepted"@
            &&& runtime.applied_generation == 0 ==> {
                &&& runtime.authority_state == "blocked_recovery_required"@
                &&& runtime.wal_status == "inventory_unavailable"@
                &&& runtime.applied_desired_hash is None
                &&& runtime.ports =~= Map::<Seq<char>, ManagedNeutronPortModel>::empty()
                &&& runtime.port_statuses =~= Map::<Seq<char>, NeutronPortStatusModel>::empty()
            }
        },
        recovered_runtime(runtime, request) matches Ok(next) ==> {
            &&& next.authority_state == "recovered_pending_full_resync_required"@
            &&& next.wal_status == "pending_recovered_to_last_applied"@
        },
        recovered_runtime(runtime, request) matches Err(error) ==> error.status
            == ReplyStatus::Conflict,
{
    reveal_strlit("applying");
    reveal_strlit("accepted");
    reveal_strlit("blocked_recovery_required");
    assert("blocked_recovery_required"@.len() != "applying"@.len());
    assert("blocked_recovery_required"@.len() != "accepted"@.len());
}

/// The only way to recover is back to what was applied last, and only once the runtime is restored.
pub proof fn recovery_goes_back_to_what_was_applied(
    restore_ready: bool,
    request: RecoverRequestModel,
)
    ensures
        recovery_preflight_refusal(restore_ready, request) is None <==> restore_ready && (
        request.mode is None || request.mode == Some("rollback_to_last_applied"@)),
        recovery_preflight_refusal(restore_ready, request) matches Some(error) ==> {
            &&& !restore_ready ==> error.status == ReplyStatus::ServiceUnavailable
            &&& restore_ready ==> error.status == ReplyStatus::BadRequest && error.code
                == "unsupported_pending_recovery_mode"@
        },
{
}

/// A recovery that is refused changes nothing that was applied; one that is answered as done leaves
/// nothing pending, and tells of the runtime as it then is.
pub proof fn recovery_tells_what_it_left(
    request: RecoverRequestModel,
    replay: NeutronWalReplayModel,
    runtime: NeutronRuntimeStateModel,
    verified: Option<Result<NeutronWalReplayModel, Seq<char>>>,
    commit: Option<OutcomeModel>,
)
    requires
        pending_recovery_step(request, replay, runtime, verified, commit) is Finish,
    ensures
        ({
            let step = pending_recovery_step(request, replay, runtime, verified, commit);
            let next = step->runtime;
            &&& runtime.pending_generation != Some(request.expected_pending_generation)
                || runtime.desired_hash != request.expected_desired_hash ==> step->reply is Err
                && next == runtime
            &&& step->reply matches Ok(response) ==> {
                &&& response.desired_hash == next.desired_hash
                &&& response.applied_generation == next.applied_generation
                &&& response.applied_desired_hash == next.applied_desired_hash
                &&& response.authority_state == next.authority_state
                &&& response.wal_status == next.wal_status
                &&& response.status == "recovered"@ || response.status == "already_committed"@
                &&& response.status == "recovered"@ ==> {
                    &&& response.recovered_generation == request.expected_pending_generation
                    &&& next.pending_generation is None
                    &&& next.accepted_generation == next.applied_generation
                    &&& next.desired_hash == next.applied_desired_hash
                    &&& next.recovery_cause is None
                    &&& commit == Some(OutcomeModel::Done)
                }
                &&& response.status == "already_committed"@ ==> response.recovered_generation
                    == next.applied_generation
            }
        }),
{
    reveal_strlit("recovered");
    reveal_strlit("already_committed");
    assert("recovered"@.len() != "already_committed"@.len());
}

/// What is logged to give up a pending snapshot is the state with nothing pending.
pub proof fn recovery_logs_nothing_pending(
    request: RecoverRequestModel,
    replay: NeutronWalReplayModel,
    runtime: NeutronRuntimeStateModel,
    verified: Option<Result<NeutronWalReplayModel, Seq<char>>>,
    commit: Option<OutcomeModel>,
)
    ensures
        ({
            let step = pending_recovery_step(request, replay, runtime, verified, commit);
            &&& step matches PendingRecoveryStepModel::Commit { next } ==> {
                &&& next.pending_generation is None
                &&& next.accepted_generation == next.applied_generation
                &&& next.desired_hash == next.applied_desired_hash
                &&& next.recovery_cause is None
            }
            &&& step matches PendingRecoveryStepModel::CommitBehindBarrier { barrier, next } ==> {
                &&& next.pending_generation is None
                &&& next.accepted_generation == next.applied_generation
                &&& next.recovery_cause is None
                &&& barrier.pending_generation == Some(request.expected_pending_generation)
                &&& barrier.authority_state == "blocked_recovery_required"@
            }
            &&& step matches PendingRecoveryStepModel::CommitInventory { intent, state } ==> {
                &&& replay.pending_intent == Some(intent)
                &&& state.ports == runtime.ports
                &&& state.pending_generation == runtime.pending_generation
            }
        }),
{
}

/// A snapshot is answered as applied in full only where no port is in error, and as applied in part
/// otherwise; then the generation that was applied before still is. All results are told.
pub proof fn answers_tell_how_far_a_snapshot_went(
    snapshot: NeutronSnapshotRequestModel,
    outcome: crate::apply::ApplyOutcomeModel,
)
    ensures
        ({
            let response = applied_response(snapshot, outcome);
            &&& response.generation == snapshot.generation
            &&& response.accepted_generation == snapshot.generation
            &&& response.desired_hash == snapshot.desired_hash
            &&& response.results == outcome.results
            &&& outcome.has_error ==> response.status == "partial"@ && response.applied_generation
                == outcome.previous_applied_generation
            &&& !outcome.has_error ==> response.status == "ok"@ && response.applied_generation
                == snapshot.generation
        }),
{
}

/// Carrying out a snapshot goes from its intent to applying it to logging what came of it, and
/// then answers; what goes wrong on the way is answered as an error, after the ports were cleaned
/// up where any may have been touched.
pub proof fn snapshots_are_carried_out_in_order(
    snapshot: NeutronSnapshotRequestModel,
    intent: PendingNeutronIntentModel,
    before: NeutronRuntimeStateModel,
    h: SnapshotHistoryModel,
)
    ensures
        ({
            let step = snapshot_step(snapshot, intent, before, h);
            let begun = h.intent_fault == Some(OutcomeModel::Done);
            let done = Some(OutcomeModel::Done);
            &&& h.intent_fault is None ==> step == SnapshotStepModel::CheckFault(
                "neutron.snapshot.after_intent"@,
            )
            &&& begun && h.applied is None ==> step is Apply
            &&& step is Apply ==> begun && h.applied is None
            &&& begun && h.applied is Some && h.commit_fault is None ==> step
                == SnapshotStepModel::CheckFault("neutron.snapshot.before_commit"@)
            &&& begun && h.applied is Some && h.commit_fault == done && h.commit is None ==> {
                &&& step is Commit
                &&& step->Commit_state.ports == h.applied->0.next_runtime.ports
                &&& step->Commit_state.port_statuses == h.applied->0.next_runtime.port_statuses
                &&& step->Commit_state.applied_generation
                    == h.applied->0.next_runtime.applied_generation
                &&& step->Commit_state.pending_generation
                    == h.applied->0.next_runtime.pending_generation
            }
            &&& begun && h.applied is Some && h.commit_fault == done && h.commit == done ==> {
                &&& step is Finish
                &&& step->reply is Ok
                &&& step->reply->Ok_0.results == h.applied->0.results
                &&& step->reply->Ok_0.generation == snapshot.generation
            }
            &&& begun && h.applied is Some && h.commit_fault is Some && h.commit_fault->0 is Failed
                ==> {
                &&& h.recovered is None ==> step is Recover
                &&& h.recovered is Some ==> step is Finish && step->reply is Err
                    && step->reply->Err_0.code == "fault_injection"@ && step->Finish_runtime
                    == h.recovered->0
            }
            &&& begun && h.applied is Some && h.commit_fault == done && h.commit is Some
                && h.commit->0 is Failed ==> {
                &&& h.recovered is None ==> step is Recover
                &&& h.recovered is Some ==> step is Finish && step->reply is Err
                    && step->reply->Err_0.code == "wal_commit_failed"@ && step->reply->Err_0.details
                    == h.commit->0->Failed_0 && step->Finish_runtime == h.recovered->0
            }
            &&& h.intent_fault is Some && h.intent_fault->0 is Failed ==> {
                &&& h.blocked_commit is None ==> step is CommitBlocked
                    && step->CommitBlocked_state.pending_generation == Some(intent.generation)
                    && step->CommitBlocked_state.ports == before.ports
                    && step->CommitBlocked_state.authority_state == "blocked_recovery_required"@
                &&& h.blocked_commit is Some ==> {
                    &&& step is Finish
                    &&& step->reply is Err
                    &&& step->reply->Err_0.status == ReplyStatus::InternalServerError
                    &&& step->reply->Err_0.details == h.intent_fault->0->Failed_0
                    &&& step->Finish_runtime.ports == before.ports
                    &&& step->Finish_runtime.applied_generation == before.applied_generation
                    &&& step->Finish_runtime.pending_generation == Some(intent.generation)
                    &&& h.blocked_commit == done ==> step->Finish_runtime.authority_state
                        == "blocked_recovery_required"@
                    &&& h.blocked_commit == done ==> step->Finish_runtime.wal_status
                        == "background_apply_failed:fault_injection"@
                    &&& h.blocked_commit != done ==> step->Finish_runtime.authority_state
                        == "pending_recovery_commit_failed"@ && step->Finish_runtime.wal_status
                        == "commit_failed"@
                }
            }
        }),
{
}

/// A port of a snapshot that could not be logged is blocked whatever its cleaning up came to, and
/// its rules are said to filter nothing.
pub proof fn unlogged_ports_are_blocked(recovery: RecoveryModel, i: int)
    ensures
        ({
            let told = uncommitted_recovery(recovery);
            &&& told.status == "blocked"@
            &&& !told.ok
            &&& recovery.ok || recovery.reason is None ==> told.reason == Some(
                "snapshot_commit_failed_recovery_required"@,
            )
            &&& !recovery.ok && recovery.reason is Some ==> told.reason == Some(
                "snapshot_commit_failed_recovery_required:"@ + recovery.reason->0,
            )
            &&& told.managed_domains == recovery.managed_domains
            &&& 0 <= i < told.domains.len() && told.domains[i].domain == "acl"@
                ==> told.domains[i].status == "blocked"@ && told.domains[i].effective_action
                == Some("bypass"@)
            &&& 0 <= i < recovery.domains.len() && recovery.domains[i].domain != "acl"@
                ==> told.domains[i] == recovery.domains[i]
            &&& recovery.managed_domains.contains("acl"@) ==> exists|j: int|
                0 <= j < told.domains.len() && (#[trigger] told.domains[j]).domain == "acl"@
        }),
{
    let told = uncommitted_recovery(recovery);
    if recovery.managed_domains.contains("acl"@) {
        if crate::submit::has_acl_state(recovery.domains) {
            let j = choose|j: int|
                0 <= j < recovery.domains.len() && (#[trigger] recovery.domains[j]).domain
                    == "acl"@;
            assert(told.domains[j].domain == "acl"@);
        } else {
            assert(told.domains[told.domains.len() - 1].domain == "acl"@);
        }
    }
}

/// A snapshot that could not be logged is cleaned up port by port, like any unfinished one.
pub proof fn unlogged_snapshots_are_cleaned_up(
    intent: PendingNeutronIntentModel,
    previous: NeutronRuntimeStateModel,
    recoveries: Seq<RecoveryModel>,
    commit: Option<OutcomeModel>,
)
    ensures
        ({
            let ports = ports_of_intent(intent, previous.ports);
            let step = uncommitted_step(intent, previous, recoveries, commit);
            &&& recoveries.len() < ports.len() ==> {
                let port = ports[recoveries.len() as int];
                step == (IntentRecoveryStepModel::RecoverPort {
                    port,
                    committed_before_intent: previous.ports.dom().contains(port.port_id),
                })
            }
            &&& recoveries.len() >= ports.len() && commit is None ==> step is Commit
            &&& recoveries.len() >= ports.len() && commit is Some ==> {
                &&& step is Publish
                &&& step->Publish_0.ports == previous.ports
                &&& step->Publish_0.applied_generation == previous.applied_generation
                &&& step->Publish_0.pending_generation == Some(intent.generation)
                &&& step->Publish_0.desired_hash == intent.desired_hash
                &&& step->Publish_0.authority_state == "blocked_recovery_required"@
            }
        }),
{
}

/// A failure in the background degrades the runtime only where it still waits for that very
/// snapshot, and never hides that a recovery is needed.
pub proof fn background_failures_degrade_their_own_snapshot(
    runtime: NeutronRuntimeStateModel,
    generation: u64,
    desired_hash: Option<Seq<char>>,
    code: Seq<char>,
)
    ensures
        ({
            let next = background_failed(runtime, generation, desired_hash, code);
            let own = runtime.pending_generation == Some(generation) && runtime.desired_hash
                == desired_hash;
            let blocked = runtime.authority_state == "blocked_recovery_required"@
                || runtime.authority_state == "wal_recovery_commit_failed"@
                || runtime.authority_state == "pending_recovery_commit_failed"@;
            &&& !own || blocked ==> next == runtime
            &&& own && !blocked ==> {
                &&& next.authority_state == "degraded"@
                &&& next.wal_status == "background_apply_failed:"@ + code
                &&& next.ports == runtime.ports
                &&& next.port_statuses == runtime.port_statuses
                &&& next.pending_generation == runtime.pending_generation
                &&& next.applied_generation == runtime.applied_generation
            }
        }),
{
}

proof fn lemma_missing(ports: Seq<ManagedNeutronPortModel>, live: Set<Seq<char>>, n: int)
    requires
        0 <= n <= ports.len(),
    ensures
        forall|x: Seq<char>| #[trigger]
            missing_among(ports, live, n).contains(x) <==> !live.contains(x) && exists|i: int|
                0 <= i < n && (#[trigger] ports[i]).ifname == x,
    decreases n,
{
    if n > 0 {
        lemma_missing(ports, live, n - 1);
        let before = missing_among(ports, live, n - 1);
        let after = missing_among(ports, live, n);
        assert forall|x: Seq<char>| #[trigger] after.contains(x) <==> !live.contains(x) && exists|
            i: int,
        |
            0 <= i < n && (#[trigger] ports[i]).ifname == x by {
            assert(before.contains(x) ==> after.contains(x));
            if !live.contains(x) && ports[n - 1].ifname == x {
                assert(after.contains(x));
            }
            if after.contains(x) && !before.contains(x) {
                assert(ports[n - 1].ifname == x);
            }
        }
    }
}

/// After a restart the interfaces of all managed ports are claimed again, with their rules where
/// those are managed, unless the runtime waits for the inventory; the ones that are missing are those
/// of managed ports that are not there.
pub proof fn managed_interfaces_are_claimed_again(
    runtime: NeutronRuntimeStateModel,
    live: Set<Seq<char>>,
    k: Seq<char>,
    x: Seq<char>,
)
    requires
        runtime.ports.dom().finite(),
    ensures
        interfaces_to_claim(runtime) is None <==> runtime.recovery_cause == Some(
            "inventory_unavailable"@,
        ),
        interfaces_to_claim(runtime) is Some && runtime.ports.dom().contains(k)
            ==> interfaces_to_claim(runtime)->0.contains(
            (runtime.ports[k].ifname, runtime.ports[k].managed_domains.contains("acl"@)),
        ),
        missing_interfaces(runtime, live).contains(x) <==> !live.contains(x) && exists|
            q: Seq<char>,
        | #[trigger]
            runtime.ports.dom().contains(q) && runtime.ports[q].ifname == x,
{
    let keys = in_order::<String>(runtime.ports.dom());
    lemma_in_order::<String>(runtime.ports.dom());
    let ports = values_in_order::<String, ManagedNeutronPortModel>(runtime.ports);
    lemma_missing(ports, live, ports.len() as int);
    if interfaces_to_claim(runtime) is Some && runtime.ports.dom().contains(k) {
        assert(keys.contains(k));
        let i = keys.index_of(k);
        assert(ports[i] == runtime.ports[k]);
        assert(interfaces_to_claim(runtime)->0[i] == (
            runtime.ports[k].ifname,
            runtime.ports[k].managed_domains.contains("acl"@),
        ));
    }
    if exists|i: int| 0 <= i < ports.len() && (#[trigger] ports[i]).ifname == x {
        let i = choose|i: int| 0 <= i < ports.len() && (#[trigger] ports[i]).ifname == x;
        assert(keys.contains(keys[i]));
        assert(runtime.ports.dom().contains(keys[i]) && runtime.ports[keys[i]].ifname == x);
    }
    if exists|q: Seq<char>| #[trigger]
        runtime.ports.dom().contains(q) && runtime.ports[q].ifname == x {
        let q = choose|q: Seq<char>| #[trigger]
            runtime.ports.dom().contains(q) && runtime.ports[q].ifname == x;
        assert(keys.contains(q));
        let i = keys.index_of(q);
        assert(ports[i].ifname == x);
    }
}

/// A claim that is restored is for the port and the interface that are recorded, and asks nothing of
/// the rules, which are not known yet.
pub proof fn restored_claims_are_for_what_is_recorded(
    port: ManagedNeutronPortModel,
    generation: u64,
)
    ensures
        ({
            let mark = restored_mark(port, generation);
            &&& mark.ifname == port.ifname
            &&& mark.port_id == port.port_id
            &&& mark.managed_domains == port.managed_domains
            &&& mark.generation == generation
            &&& mark.projection_health is None
            &&& mark.publication_mode == ManagedAclPublicationMode::ManagedAcl <==> exists|i: int|
                0 <= i < port.managed_domains.len() && domain_name(
                    #[trigger] port.managed_domains[i],
                ) == "acl"@
        }),
{
    reveal_strlit("acl");
    assert("acl"@.len() > 0);
}

/// A recovery is answered as committed already only where the log is ahead of the runtime; and a
/// runtime that waits for the inventory is given up only from the state that says so.
pub proof fn logs_that_are_ahead_are_taken_over(
    request: RecoverRequestModel,
    replay: NeutronWalReplayModel,
    runtime: NeutronRuntimeStateModel,
    commit: Option<OutcomeModel>,
)
    requires
        replay.pending_intent is None,
        runtime.pending_generation == Some(request.expected_pending_generation),
        runtime.desired_hash == request.expected_desired_hash,
    ensures
        ({
            let step = pending_recovery_step(request, replay, runtime, None, commit);
            let waits = runtime.recovery_cause == Some("inventory_unavailable"@)
                || replay.state.recovery_cause == Some("inventory_unavailable"@);
            let typed = runtime.recovery_cause == Some("inventory_unavailable"@)
                && runtime.wal_status == "inventory_unavailable"@ && runtime.authority_state
                == "blocked_recovery_required"@;
            let ahead = replay.state.applied_generation > runtime.applied_generation
                || replay.state.accepted_generation > runtime.accepted_generation;
            &&& waits && !typed ==> step is Finish && step->reply is Err && step->runtime == runtime
            &&& (!waits || typed) && ahead ==> {
                &&& step is Finish
                &&& step->reply is Ok
                &&& step->reply->Ok_0.status == "already_committed"@
                &&& step->runtime.ports == replay.state.ports
                &&& step->runtime.applied_generation == replay.state.applied_generation
                &&& step->runtime.accepted_generation == replay.state.accepted_generation
                &&& step->runtime.pending_generation == replay.state.pending_generation
            }
            &&& (!waits || typed) && !ahead && runtime.applied_generation > 0
                && runtime.authority_state != "applying"@ && runtime.authority_state != "accepted"@
                ==> {
                &&& commit is None && !waits ==> step is Commit
                &&& commit is None && waits ==> step is CommitBehindBarrier
                &&& commit == Some(OutcomeModel::Done) ==> step is Finish && step->reply is Ok
                    && step->runtime.ports == runtime.ports && step->runtime.applied_generation
                    == runtime.applied_generation
                &&& commit is Some && commit->0 is Failed ==> {
                    &&& step is Finish
                    &&& step->reply is Err
                    &&& step->reply->Err_0.code == "pending_recovery_commit_failed"@
                    &&& step->runtime.ports == runtime.ports
                    &&& step->runtime.pending_generation == runtime.pending_generation
                    &&& waits ==> step->runtime == runtime
                    &&& !waits ==> step->runtime.authority_state
                        == "pending_recovery_commit_failed"@
                }
            }
        }),
{
}

/// Claims after a restart are logged before they are published; where there is nothing to claim, or
/// the runtime waits for the inventory, nothing is done.
pub proof fn claims_are_logged_first(
    runtime: NeutronRuntimeStateModel,
    live: Set<Seq<char>>,
    results: Seq<ReconcileResultModel>,
    commit: Option<OutcomeModel>,
)
    ensures
        ({
            let step = committed_step(runtime, live, results, commit);
            let idle = runtime.recovery_cause == Some("inventory_unavailable"@) || results.len()
                == 0;
            &&& idle <==> step is Nothing
            &&& !idle && commit is None ==> step is Commit && step->state.applied_generation
                == runtime.applied_generation
            &&& !idle && commit is Some ==> {
                &&& step is Publish
                &&& step->Publish_0.applied_generation == runtime.applied_generation
                &&& step->Publish_0.pending_generation == runtime.pending_generation
                &&& step->Publish_0.ports.dom() == runtime.ports.dom()
                &&& commit->0 is Failed ==> step->Publish_0.authority_state
                    == "wal_runtime_reconcile_commit_failed"@ && step->Publish_0.wal_status
                    == "commit_failed"@
            }
        }),
{
    let missing = missing_interfaces(runtime, live);
    crate::health::claiming_keeps_what_is_committed(
        runtime,
        values_in_order::<String, ManagedNeutronPortModel>(runtime.ports),
        runtime.applied_generation,
        runtime.applied_desired_hash,
        results.map_values(
            |result: ReconcileResultModel| crate::health::deferred_result(result, missing),
        ),
        exists|i: int|
            0 <= i < results.len() && crate::health::deferrable(#[trigger] results[i], missing),
    );
}

/// An interrupted deletion is finished once its ports are cleaned up: they are gone when the removal
/// is logged, and stay, blocked, where cleaning one of them up failed.
pub proof fn interrupted_deletions_are_finished(
    intent: PendingNeutronIntentModel,
    previous: NeutronRuntimeStateModel,
    recoveries: Seq<RecoveryModel>,
    commit: Option<OutcomeModel>,
    k: Seq<char>,
)
    requires
        intent.kind == "delete"@,
        intent.recovery_cause != Some("inventory_unavailable"@),
        ports_of_intent(intent, previous.ports).len() > 0,
    ensures
        ({
            let ports = ports_of_intent(intent, previous.ports);
            let step = intent_recovery_step(intent, previous, recoveries, commit);
            let failed = exists|i: int| 0 <= i < ports.len() && !(#[trigger] recoveries[i]).ok;
            &&& recoveries.len() < ports.len() ==> {
                let port = ports[recoveries.len() as int];
                step == (IntentRecoveryStepModel::RecoverPort {
                    port,
                    committed_before_intent: previous.ports.dom().contains(port.port_id),
                })
            }
            &&& recoveries.len() >= ports.len() && !failed ==> {
                &&& commit is None ==> step is CommitDelete && (
                step->CommitDelete_state.ports.dom().contains(k) <==> previous.ports.dom().contains(
                    k,
                ) && !intent.port_ids.contains(k))
                &&& commit == Some(OutcomeModel::Done) ==> step is Publish && (
                step->Publish_0.ports.dom().contains(k) <==> previous.ports.dom().contains(k)
                    && !intent.port_ids.contains(k)) && step->Publish_0.pending_generation is None
            }
            &&& recoveries.len() >= ports.len() && (failed || (commit is Some && commit->0
                is Failed)) ==> {
                &&& step is Publish
                &&& step->Publish_0.authority_state == "blocked_recovery_required"@
                &&& step->Publish_0.pending_generation == Some(intent.generation)
                &&& previous.ports.dom().contains(k) ==> step->Publish_0.ports.dom().contains(k)
            }
        }),
{
    let ports = ports_of_intent(intent, previous.ports);
    if recoveries.len() >= ports.len() {
        let failed = exists|i: int| 0 <= i < ports.len() && !(#[trigger] recoveries[i]).ok;
        let statuses = statuses_after_recovery(
            intent,
            previous.port_statuses,
            ports,
            recoveries,
            ports.len() as int,
        );
        crate::delete_laws::finished_deletions_remove_their_ports(
            intent,
            previous,
            statuses,
            commit,
            k,
        );
        if failed || (commit is Some && commit->0 is Failed) {
            crate::delete_laws::unfinished_deletions_stay_blocked(
                intent,
                previous,
                statuses,
                failed,
                commit,
                k,
            );
        }
    }
}

/// An intent that names no port leaves the host blocked: nothing tells what it may have touched. Where
/// even that cannot be logged the runtime is published as it was.
pub proof fn intents_without_ports_block(
    intent: PendingNeutronIntentModel,
    previous: NeutronRuntimeStateModel,
    recoveries: Seq<RecoveryModel>,
    commit: Option<OutcomeModel>,
)
    requires
        intent.recovery_cause != Some("inventory_unavailable"@),
        ports_of_intent(intent, previous.ports).len() == 0,
    ensures
        ({
            let step = intent_recovery_step(intent, previous, recoveries, commit);
            &&& intent.kind != "delete"@ && commit is None ==> step is Commit
                && step->Commit_state.authority_state == "blocked_recovery_required"@
                && step->Commit_state.pending_generation == Some(intent.generation)
            &&& intent.kind != "delete"@ && commit == Some(OutcomeModel::Done) ==> step is Publish
                && step->Publish_0.authority_state == "blocked_recovery_required"@
                && step->Publish_0.pending_generation == Some(intent.generation)
                && step->Publish_0.desired_hash == intent.desired_hash
                && step->Publish_0.port_statuses == previous.port_statuses
            &&& intent.kind != "delete"@ && commit is Some && commit->0 is Failed ==> step
                == IntentRecoveryStepModel::Publish(previous)
            &&& intent.kind == "delete"@ ==> step is Publish && step->Publish_0.authority_state
                == "blocked_recovery_required"@ && step->Publish_0.applied_generation
                == previous.applied_generation
        }),
{
    if intent.kind == "delete"@ {
        crate::delete_laws::unfinished_deletions_stay_blocked(
            intent,
            previous,
            previous.port_statuses,
            true,
            commit,
            Seq::empty(),
        );
    }
}

/// A port whose interface could not be taken is told as such: its attachment is blocked for that
/// reason, and its rules are blocked with it.
pub proof fn untaken_interfaces_block_their_rules(
    intent: PendingNeutronIntentModel,
    port: ManagedNeutronPortModel,
    committed_before: bool,
    h: PortRecoveryHistoryModel,
    i: int,
)
    requires
        concerns_known_domains(intent, port),
        port.ifname.len() > 0,
        h.attached is Some && h.attached->0 is Failed,
    ensures
        ({
            let told = port_recovery_step(intent, port, committed_before, h)->Finish_0.domains;
            &&& port_recovery_step(intent, port, committed_before, h) is Finish
            &&& told.len() == if concerns(intent, port, "acl"@) {
                2nat
            } else {
                1nat
            }
            &&& 0 <= i < told.len() ==> told[i].status == "blocked"@ && told[i].effective_action
                is None
            &&& told[0].domain == "attach"@
            &&& told.len() == 2 ==> told[1].domain == "acl"@
        }),
{
    lemma_recovery_domains(intent, port);
}

} // verus!
