//! Cleaning up after an intent that was logged and not finished.

use crate::acl_gate::{NeutronAclReconcileError, ReconcileErrorModel};
use crate::apply::{block_for_inventory, inventory_blocked};
use crate::delete::{
    delete_finish_step, finalize_recovered_delete_intent, purge_result, DeleteFinishModel,
    DeleteFinishStep,
};
use crate::domains::{
    implemented, is_implemented, normal_domains, normalize_managed_domains, recovery_domains,
    recovery_domains_for_port,
};
use crate::host::{is_text, string_is, HostOutcome, OutcomeModel};
use crate::model::{
    ManagedNeutronPort, ManagedNeutronPortModel, NeutronDomainStatus, NeutronDomainStatusModel,
    NeutronPortStatus, NeutronPortStatusModel, NeutronRuntimeState, NeutronRuntimeStateModel,
    NeutronWalState, NeutronWalStateModel, PendingNeutronIntent, PendingNeutronIntentModel,
};
use crate::ordered::{lemma_filter_step, list_contains, OrderedMap, Value};
use crate::recovery::wal_of_runtime;
use crate::status::{
    domain_state, domain_status, domain_status_with_action, port_runtime_status, port_state,
    states_of, statuses_for,
};
use crate::text::{join, joined, text_eq};
use crate::transaction::{affected_ports_for_intent, ports_of_intent};
use vstd::prelude::*;
use vstd::string::*;

verus! {

/// What cleaning up a port after an unfinished intent came to.
#[derive(Debug, PartialEq, Eq)]
pub struct IntentPortRecovery {
    pub managed_domains: Vec<String>,
    pub domains: Vec<NeutronDomainStatus>,
    pub status: String,
    pub reason: Option<String>,
    pub ok: bool,
}

/// The model of [`IntentPortRecovery`].
#[verifier::ext_equal]
pub struct RecoveryModel {
    pub managed_domains: Seq<Seq<char>>,
    pub domains: Seq<NeutronDomainStatusModel>,
    pub status: Seq<char>,
    pub reason: Option<Seq<char>>,
    pub ok: bool,
}

impl DeepView for IntentPortRecovery {
    type V = RecoveryModel;

    open spec fn deep_view(&self) -> RecoveryModel {
        RecoveryModel {
            managed_domains: self.managed_domains.deep_view(),
            domains: self.domains.deep_view(),
            status: self.status.deep_view(),
            reason: self.reason.deep_view(),
            ok: self.ok,
        }
    }
}

impl Value for IntentPortRecovery {
    fn duplicate(&self) -> (r: Self) {
        IntentPortRecovery {
            managed_domains: self.managed_domains.duplicate(),
            domains: self.domains.duplicate(),
            status: self.status.duplicate(),
            reason: self.reason.duplicate(),
            ok: self.ok,
        }
    }

    fn same(&self, other: &Self) -> (r: bool) {
        self.managed_domains.same(&other.managed_domains)
            && self.domains.same(&other.domains)
            && self.status.same(&other.status)
            && self.reason.same(&other.reason)
            && self.ok == other.ok
    }
}

impl Clone for IntentPortRecovery {
    fn clone(&self) -> (r: Self)
        ensures
            r.deep_view() == self.deep_view(),
    {
        self.duplicate()
    }
}

/// A port that could not be cleaned up.
pub open spec fn blocked_recovery(
    managed_domains: Seq<Seq<char>>,
    domains: Seq<NeutronDomainStatusModel>,
    reason: Seq<char>,
) -> RecoveryModel {
    RecoveryModel {
        managed_domains,
        domains,
        status: "blocked"@,
        reason: Some(reason),
        ok: false,
    }
}

impl IntentPortRecovery {
    /// A port that could not be cleaned up, with the domains that it manages.
    pub fn blocked(
        port: &ManagedNeutronPort,
        domains: Vec<NeutronDomainStatus>,
        reason: String,
    ) -> (r: Self)
        ensures
            r.deep_view() == blocked_recovery(
                normal_domains(port.deep_view().managed_domains),
                domains.deep_view(),
                reason@,
            ),
    {
        IntentPortRecovery {
            managed_domains: normalize_managed_domains(&port.managed_domains),
            domains,
            status: "blocked".to_owned(),
            reason: Some(reason),
            ok: false,
        }
    }
}

/// The state of a domain of a port that has domains that cannot be cleaned up.
pub open spec fn unsupported_domain_state(domain: Seq<char>) -> NeutronDomainStatusModel {
    domain_state(
        domain,
        "blocked"@,
        Some(
            if implemented(domain) {
                "blocked_by_unsupported_recovery_domain"@
            } else {
                "unsupported_recovery_domain:"@ + domain
            },
        ),
        None,
    )
}

/// What cleaning up a port comes to where it has domains that cannot be cleaned up.
pub open spec fn unsupported_recovery(domains: Seq<Seq<char>>) -> Option<RecoveryModel> {
    let unsupported = domains.filter(|domain: Seq<char>| !implemented(domain));
    if unsupported.len() == 0 {
        None
    } else {
        Some(
            blocked_recovery(
                domains,
                domains.map_values(|domain: Seq<char>| unsupported_domain_state(domain)),
                "unsupported_recovery_domains:"@ + joined(unsupported, ","@),
            ),
        )
    }
}

/// Tells what cleaning up a port comes to where it has domains that cannot be cleaned up.
pub fn blocked_unsupported_recovery(domains: &Vec<String>) -> (r: Option<IntentPortRecovery>)
    ensures
        r.deep_view() == unsupported_recovery(domains.deep_view()),
{
    let ghost models = domains.deep_view();
    let ghost p = |domain: Seq<char>| !implemented(domain);
    let ghost wanted = models.map_values(|domain: Seq<char>| unsupported_domain_state(domain));
    let mut unsupported: Vec<String> = Vec::new();
    let mut states: Vec<NeutronDomainStatus> = Vec::new();
    let mut i: usize = 0;
    assert(unsupported.deep_view() =~= models.take(0).filter(p)) by {
        reveal(Seq::filter);
    }
    assert(states.deep_view() =~= wanted.take(0));
    while i < domains.len()
        invariant
            i <= domains.len(),
            models == domains.deep_view(),
            p == (|domain: Seq<char>| !implemented(domain)),
            wanted == models.map_values(|domain: Seq<char>| unsupported_domain_state(domain)),
            unsupported.deep_view() == models.take(i as int).filter(p),
            states.deep_view() == wanted.take(i as int),
        decreases domains.len() - i,
    {
        assert(models[i as int] == domains@[i as int]@);
        proof {
            lemma_filter_step(models, p, i as int);
        }
        let domain = domains[i].as_str();
        let reason = if is_implemented(domain) {
            "blocked_by_unsupported_recovery_domain".to_owned()
        } else {
            let ghost before = unsupported.deep_view();
            let name = domains[i].duplicate();
            unsupported.push(name);
            assert(unsupported.deep_view() =~= before.push(name@));
            let mut text = "unsupported_recovery_domain:".to_owned();
            text.append(domain);
            text
        };
        let state = domain_status(domain, "blocked", Some(reason));
        let ghost before = states.deep_view();
        let ghost pushed = state.deep_view();
        states.push(state);
        assert(pushed == wanted[i as int]);
        assert(states.deep_view() =~= before.push(pushed));
        assert(wanted.take(i + 1) =~= wanted.take(i as int).push(wanted[i as int]));
        i += 1;
    }
    assert(models.take(i as int) =~= models);
    assert(wanted.take(i as int) =~= wanted);
    assert(unsupported.deep_view().len() == unsupported.len());
    if unsupported.len() == 0 {
        return None;
    }
    let mut reason = "unsupported_recovery_domains:".to_owned();
    reason.append(join(&unsupported, ",").as_str());
    Some(
        IntentPortRecovery {
            managed_domains: domains.duplicate(),
            domains: states,
            status: "blocked".to_owned(),
            reason: Some(reason),
            ok: false,
        },
    )
}

/// What came of the steps of cleaning up a port.
#[derive(Debug)]
pub struct PortRecoveryHistory {
    pub attached: Option<HostOutcome>,
    pub purged: Option<Result<(), NeutronAclReconcileError>>,
    pub detached: Option<HostOutcome>,
}

/// The model of [`PortRecoveryHistory`].
#[verifier::ext_equal]
pub struct PortRecoveryHistoryModel {
    pub attached: Option<OutcomeModel>,
    pub purged: Option<Result<(), ReconcileErrorModel>>,
    pub detached: Option<OutcomeModel>,
}

impl DeepView for PortRecoveryHistory {
    type V = PortRecoveryHistoryModel;

    open spec fn deep_view(&self) -> PortRecoveryHistoryModel {
        PortRecoveryHistoryModel {
            attached: self.attached.deep_view(),
            purged: purge_result(self.purged),
            detached: self.detached.deep_view(),
        }
    }
}

impl Default for PortRecoveryHistory {
    fn default() -> (r: Self)
        ensures
            r.deep_view() == (PortRecoveryHistoryModel {
                attached: None,
                purged: None,
                detached: None,
            }),
    {
        PortRecoveryHistory { attached: None, purged: None, detached: None }
    }
}

/// What cleaning up a port has to do next.
#[derive(Debug, PartialEq, Eq)]
pub enum PortRecoveryStep {
    /// Attach the interface, so that its rules can be reached.
    Attach { ifname: String, manages_acl: bool },
    /// Scrub the rules.
    Purge { ifname: String, port_id: String },
    /// Detach the interface.
    Detach { ifname: String },
    /// What it came to.
    Finish(IntentPortRecovery),
}

/// The model of [`PortRecoveryStep`].
pub enum PortRecoveryStepModel {
    Attach { ifname: Seq<char>, manages_acl: bool },
    Purge { ifname: Seq<char>, port_id: Seq<char> },
    Detach { ifname: Seq<char> },
    Finish(RecoveryModel),
}

impl DeepView for PortRecoveryStep {
    type V = PortRecoveryStepModel;

    open spec fn deep_view(&self) -> PortRecoveryStepModel {
        match self {
            PortRecoveryStep::Attach { ifname, manages_acl } => {
                PortRecoveryStepModel::Attach { ifname: ifname@, manages_acl: *manages_acl }
            },
            PortRecoveryStep::Purge { ifname, port_id } => {
                PortRecoveryStepModel::Purge { ifname: ifname@, port_id: port_id@ }
            },
            PortRecoveryStep::Detach { ifname } => {
                PortRecoveryStepModel::Detach { ifname: ifname@ }
            },
            PortRecoveryStep::Finish(recovery) => {
                PortRecoveryStepModel::Finish(recovery.deep_view())
            },
        }
    }
}

/// A port that was cleaned up.
pub open spec fn finished_recovery(
    managed_domains: Seq<Seq<char>>,
    domains: Seq<NeutronDomainStatusModel>,
) -> RecoveryModel {
    RecoveryModel {
        managed_domains,
        domains,
        status: "recovered"@,
        reason: Some("wal_intent_recovered_pending_full_resync"@),
        ok: true,
    }
}

/// What is to be done once the rules are gone: the interface is detached where the port was to be
/// deleted or was not there before.
pub open spec fn scrubbed_step(
    port: ManagedNeutronPortModel,
    managed_domains: Seq<Seq<char>>,
    states: Seq<NeutronDomainStatusModel>,
    should_detach: bool,
    detached: Option<OutcomeModel>,
) -> PortRecoveryStepModel {
    if !should_detach {
        PortRecoveryStepModel::Finish(finished_recovery(managed_domains, states))
    } else {
        match detached {
            None => PortRecoveryStepModel::Detach { ifname: port.ifname },
            Some(OutcomeModel::Done) => PortRecoveryStepModel::Finish(
                finished_recovery(managed_domains, states),
            ),
            Some(OutcomeModel::Failed(error)) => {
                let reason = "detach_recovery_failed:"@ + error;
                PortRecoveryStepModel::Finish(
                    blocked_recovery(
                        managed_domains,
                        states.push(domain_state("attach"@, "blocked"@, Some(reason), None)),
                        reason,
                    ),
                )
            },
        }
    }
}

/// What is to be done once the interface is attached.
pub open spec fn attached_step(
    port: ManagedNeutronPortModel,
    managed_domains: Seq<Seq<char>>,
    should_detach: bool,
    h: PortRecoveryHistoryModel,
) -> PortRecoveryStepModel {
    let attached = seq![
        domain_state("attach"@, "recovered"@, Some("attached_for_recovery"@), None),
    ];
    if !managed_domains.contains("acl"@) {
        scrubbed_step(port, managed_domains, attached, should_detach, h.detached)
    } else {
        match h.purged {
            None => PortRecoveryStepModel::Purge { ifname: port.ifname, port_id: port.port_id },
            Some(Err(error)) => {
                let reason = "acl_recovery_failed:"@ + error.details;
                PortRecoveryStepModel::Finish(
                    blocked_recovery(
                        managed_domains,
                        attached.push(
                            domain_state(
                                "acl"@,
                                "blocked"@,
                                Some(reason),
                                Some(error.effective_action),
                            ),
                        ),
                        reason,
                    ),
                )
            },
            Some(Ok(_)) => scrubbed_step(
                port,
                managed_domains,
                attached.push(
                    domain_state(
                        "acl"@,
                        "recovered"@,
                        Some("acl_scrubbed_after_incomplete_wal_intent"@),
                        Some("bypass"@),
                    ),
                ),
                should_detach,
                h.detached,
            ),
        }
    }
}

/// A port whose interface could not be attached.
pub open spec fn attach_failed_recovery(
    managed_domains: Seq<Seq<char>>,
    error: Seq<char>,
) -> RecoveryModel {
    let reason = "attach_recovery_failed:"@ + error;
    let attach = seq![domain_state("attach"@, "blocked"@, Some(reason), None)];
    blocked_recovery(
        managed_domains,
        if managed_domains.contains("acl"@) {
            attach.push(
                domain_state("acl"@, "blocked"@, Some("blocked_by_attach_recovery"@), None),
            )
        } else {
            attach
        },
        reason,
    )
}

/// What cleaning up a port has to do next, given what came of the earlier steps.
pub open spec fn port_recovery_step(
    intent: PendingNeutronIntentModel,
    port: ManagedNeutronPortModel,
    committed_before_intent: bool,
    h: PortRecoveryHistoryModel,
) -> PortRecoveryStepModel {
    let domains = recovery_domains(intent, port);
    let should_detach = intent.kind == "delete"@ || !committed_before_intent;
    match unsupported_recovery(domains) {
        Some(recovery) => PortRecoveryStepModel::Finish(recovery),
        None => if port.ifname.len() == 0 {
            if domains.contains("acl"@) {
                PortRecoveryStepModel::Finish(
                    blocked_recovery(
                        normal_domains(port.managed_domains),
                        states_of(domains, "blocked"@, Some("missing_ifname_for_recovery"@)),
                        "missing_ifname_for_recovery"@,
                    ),
                )
            } else {
                PortRecoveryStepModel::Finish(finished_recovery(domains, Seq::empty()))
            }
        } else {
            match h.attached {
                None => PortRecoveryStepModel::Attach {
                    ifname: port.ifname,
                    manages_acl: domains.contains("acl"@),
                },
                Some(OutcomeModel::Failed(error)) => PortRecoveryStepModel::Finish(
                    attach_failed_recovery(domains, error),
                ),
                Some(OutcomeModel::Done) => attached_step(port, domains, should_detach, h),
            }
        },
    }
}

fn blocked(
    managed_domains: &Vec<String>,
    domains: Vec<NeutronDomainStatus>,
    reason: String,
) -> (r: PortRecoveryStep)
    ensures
        r.deep_view() == PortRecoveryStepModel::Finish(
            blocked_recovery(managed_domains.deep_view(), domains.deep_view(), reason@),
        ),
{
    PortRecoveryStep::Finish(
        IntentPortRecovery {
            managed_domains: managed_domains.duplicate(),
            domains,
            status: "blocked".to_owned(),
            reason: Some(reason),
            ok: false,
        },
    )
}

fn finished(managed_domains: &Vec<String>, domains: Vec<NeutronDomainStatus>) -> (r:
    PortRecoveryStep)
    ensures
        r.deep_view() == PortRecoveryStepModel::Finish(
            finished_recovery(managed_domains.deep_view(), domains.deep_view()),
        ),
{
    PortRecoveryStep::Finish(
        IntentPortRecovery {
            managed_domains: managed_domains.duplicate(),
            domains,
            status: "recovered".to_owned(),
            reason: Some("wal_intent_recovered_pending_full_resync".to_owned()),
            ok: true,
        },
    )
}

fn push_state(states: &mut Vec<NeutronDomainStatus>, state: NeutronDomainStatus)
    ensures
        final(states).deep_view() == old(states).deep_view().push(state.deep_view()),
{
    let ghost before = states.deep_view();
    let ghost pushed = state.deep_view();
    states.push(state);
    assert(states.deep_view() =~= before.push(pushed));
}

fn next_scrubbed_step(
    port: &ManagedNeutronPort,
    managed_domains: &Vec<String>,
    states: Vec<NeutronDomainStatus>,
    should_detach: bool,
    detached: &Option<HostOutcome>,
) -> (r: PortRecoveryStep)
    ensures
        r.deep_view() == scrubbed_step(
            port.deep_view(),
            managed_domains.deep_view(),
            states.deep_view(),
            should_detach,
            detached.deep_view(),
        ),
{
    if !should_detach {
        return finished(managed_domains, states);
    }
    match detached {
        None => PortRecoveryStep::Detach { ifname: port.ifname.duplicate() },
        Some(HostOutcome::Done) => finished(managed_domains, states),
        Some(HostOutcome::Failed(error)) => {
            let mut reason = "detach_recovery_failed:".to_owned();
            reason.append(error.as_str());
            let mut states = states;
            push_state(
                &mut states,
                domain_status("attach", "blocked", Some(reason.duplicate())),
            );
            blocked(managed_domains, states, reason)
        },
    }
}

/// Tells what cleaning up a port has to do next.
pub fn recover_intent_port(
    intent: &PendingNeutronIntent,
    port: &ManagedNeutronPort,
    committed_before_intent: bool,
    history: &PortRecoveryHistory,
) -> (r: PortRecoveryStep)
    ensures
        r.deep_view() == port_recovery_step(
            intent.deep_view(),
            port.deep_view(),
            committed_before_intent,
            history.deep_view(),
        ),
{
    let domains = recovery_domains_for_port(intent, port);
    let acl_name = "acl".to_owned();
    let acl_managed = list_contains(&domains, &acl_name);
    if let Some(recovery) = blocked_unsupported_recovery(&domains) {
        return PortRecoveryStep::Finish(recovery);
    }
    let mut states: Vec<NeutronDomainStatus> = Vec::new();
    assert(states.deep_view() =~= Seq::<NeutronDomainStatusModel>::empty());
    if port.ifname.as_str().is_empty() {
        if acl_managed {
            let reason = "missing_ifname_for_recovery".to_owned();
            let domains = statuses_for(&domains, "blocked", &Some(reason.duplicate()));
            return PortRecoveryStep::Finish(IntentPortRecovery::blocked(port, domains, reason));
        }
        return finished(&domains, states);
    }
    match &history.attached {
        None => {
            return PortRecoveryStep::Attach {
                ifname: port.ifname.duplicate(),
                manages_acl: acl_managed,
            };
        },
        Some(HostOutcome::Failed(error)) => {
            let mut reason = "attach_recovery_failed:".to_owned();
            reason.append(error.as_str());
            push_state(
                &mut states,
                domain_status("attach", "blocked", Some(reason.duplicate())),
            );
            assert(states.deep_view() =~= seq![
                domain_state("attach"@, "blocked"@, Some(reason@), None),
            ]);
            if acl_managed {
                push_state(
                    &mut states,
                    domain_status(
                        "acl",
                        "blocked",
                        Some("blocked_by_attach_recovery".to_owned()),
                    ),
                );
            }
            return blocked(&domains, states, reason);
        },
        Some(HostOutcome::Done) => {
            push_state(
                &mut states,
                domain_status("attach", "recovered", Some("attached_for_recovery".to_owned())),
            );
            assert(states.deep_view() =~= seq![
                domain_state("attach"@, "recovered"@, Some("attached_for_recovery"@), None),
            ]);
        },
    }
    let should_detach = text_eq(intent.kind.as_str(), "delete") || !committed_before_intent;
    if acl_managed {
        match &history.purged {
            None => {
                return PortRecoveryStep::Purge {
                    ifname: port.ifname.duplicate(),
                    port_id: port.port_id.duplicate(),
                };
            },
            Some(Err(error)) => {
                let mut reason = "acl_recovery_failed:".to_owned();
                reason.append(error.details.as_str());
                push_state(
                    &mut states,
                    domain_status_with_action(
                        "acl",
                        "blocked",
                        Some(reason.duplicate()),
                        Some(error.effective_action.to_owned()),
                    ),
                );
                return blocked(&domains, states, reason);
            },
            Some(Ok(_)) => {
                push_state(
                    &mut states,
                    domain_status_with_action(
                        "acl",
                        "recovered",
                        Some("acl_scrubbed_after_incomplete_wal_intent".to_owned()),
                        Some("bypass".to_owned()),
                    ),
                );
            },
        }
    }
    next_scrubbed_step(port, &domains, states, should_detach, &history.detached)
}

/// The status of a port by what cleaning it up came to.
pub open spec fn recovery_status(
    intent: PendingNeutronIntentModel,
    port: ManagedNeutronPortModel,
    recovery: RecoveryModel,
) -> NeutronPortStatusModel {
    port_state(
        port.port_id,
        port.ifname,
        intent.generation,
        intent.desired_hash,
        recovery.managed_domains,
        recovery.status,
        recovery.reason,
        recovery.domains,
    )
}

/// Makes the status of a port by what cleaning it up came to.
pub fn recovery_port_status(
    intent: &PendingNeutronIntent,
    port: &ManagedNeutronPort,
    recovery: &IntentPortRecovery,
) -> (r: NeutronPortStatus)
    ensures
        r.deep_view() == recovery_status(
            intent.deep_view(),
            port.deep_view(),
            recovery.deep_view(),
        ),
{
    port_runtime_status(
        port.port_id.as_str(),
        port.ifname.as_str(),
        intent.generation,
        intent.desired_hash.duplicate(),
        recovery.managed_domains.duplicate(),
        recovery.status.as_str(),
        recovery.reason.duplicate(),
        recovery.domains.duplicate(),
    )
}

/// The statuses with what cleaning up the first `n` ports came to.
pub open spec fn statuses_after_recovery(
    intent: PendingNeutronIntentModel,
    statuses: Map<Seq<char>, NeutronPortStatusModel>,
    ports: Seq<ManagedNeutronPortModel>,
    recoveries: Seq<RecoveryModel>,
    n: int,
) -> Map<Seq<char>, NeutronPortStatusModel>
    decreases n,
{
    if n <= 0 {
        statuses
    } else {
        statuses_after_recovery(intent, statuses, ports, recoveries, n - 1).insert(
            ports[n - 1].port_id,
            recovery_status(intent, ports[n - 1], recoveries[n - 1]),
        )
    }
}

/// True when one of the first `n` ports could not be cleaned up.
pub open spec fn recovery_failed(recoveries: Seq<RecoveryModel>, n: int) -> bool {
    exists|i: int| 0 <= i < n && !(#[trigger] recoveries[i]).ok
}

/// What cleaning up after an intent has to do next.
#[derive(Debug, PartialEq, Eq)]
pub enum IntentRecoveryStep {
    /// Clean up a port.
    RecoverPort { port: ManagedNeutronPort, committed_before_intent: bool },
    /// Log the state.
    Commit { state: NeutronWalState },
    /// Log the state without the deleted ports.
    CommitDelete { state: NeutronWalState },
    /// Publish the runtime.
    Publish(NeutronRuntimeState),
}

/// The model of [`IntentRecoveryStep`].
pub enum IntentRecoveryStepModel {
    RecoverPort { port: ManagedNeutronPortModel, committed_before_intent: bool },
    Commit { state: NeutronWalStateModel },
    CommitDelete { state: NeutronWalStateModel },
    Publish(NeutronRuntimeStateModel),
}

impl DeepView for IntentRecoveryStep {
    type V = IntentRecoveryStepModel;

    open spec fn deep_view(&self) -> IntentRecoveryStepModel {
        match self {
            IntentRecoveryStep::RecoverPort { port, committed_before_intent } => {
                IntentRecoveryStepModel::RecoverPort {
                    port: port.deep_view(),
                    committed_before_intent: *committed_before_intent,
                }
            },
            IntentRecoveryStep::Commit { state } => {
                IntentRecoveryStepModel::Commit { state: state.deep_view() }
            },
            IntentRecoveryStep::CommitDelete { state } => {
                IntentRecoveryStepModel::CommitDelete { state: state.deep_view() }
            },
            IntentRecoveryStep::Publish(runtime) => {
                IntentRecoveryStepModel::Publish(runtime.deep_view())
            },
        }
    }
}

/// The runtime that keeps an intent pending.
pub open spec fn pending_runtime(
    runtime: NeutronRuntimeStateModel,
    intent: PendingNeutronIntentModel,
    authority_state: Seq<char>,
    wal_status: Seq<char>,
) -> NeutronRuntimeStateModel {
    NeutronRuntimeStateModel {
        pending_generation: Some(intent.generation),
        desired_hash: intent.desired_hash,
        authority_state,
        wal_status,
        ..runtime
    }
}

fn keep_pending(
    runtime: &NeutronRuntimeState,
    intent: &PendingNeutronIntent,
    authority_state: &str,
    wal_status: &str,
) -> (r: NeutronRuntimeState)
    ensures
        r.deep_view() == pending_runtime(
            runtime.deep_view(),
            intent.deep_view(),
            authority_state@,
            wal_status@,
        ),
{
    let mut next = runtime.duplicate();
    next.pending_generation = Some(intent.generation);
    next.desired_hash = intent.desired_hash.duplicate();
    next.authority_state = authority_state.to_owned();
    next.wal_status = wal_status.to_owned();
    next
}

/// The step that finishes a deletion, among the steps of a recovery.
pub open spec fn deletion_step(step: DeleteFinishModel) -> IntentRecoveryStepModel {
    match step {
        DeleteFinishModel::CommitDelete { state } => {
            IntentRecoveryStepModel::CommitDelete { state }
        },
        DeleteFinishModel::Publish(runtime) => IntentRecoveryStepModel::Publish(runtime),
    }
}

/// The runtime after the ports of a snapshot were cleaned up.
pub open spec fn recovered_snapshot_runtime(
    intent: PendingNeutronIntentModel,
    previous: NeutronRuntimeStateModel,
    statuses: Map<Seq<char>, NeutronPortStatusModel>,
    failed: bool,
) -> NeutronRuntimeStateModel {
    pending_runtime(
        NeutronRuntimeStateModel { port_statuses: statuses, ..previous },
        intent,
        if failed {
            "blocked_recovery_required"@
        } else {
            "recovered_pending_full_resync"@
        },
        if failed {
            "intent_recovery_blocked"@
        } else {
            "intent_recovered"@
        },
    )
}

/// What cleaning up after an intent has to do next, given what came of the earlier steps.
pub open spec fn intent_recovery_step(
    intent: PendingNeutronIntentModel,
    previous: NeutronRuntimeStateModel,
    recoveries: Seq<RecoveryModel>,
    commit: Option<OutcomeModel>,
) -> IntentRecoveryStepModel {
    let ports = ports_of_intent(intent, previous.ports);
    let n = ports.len() as int;
    if is_text(intent.recovery_cause, "inventory_unavailable"@) {
        let next = inventory_blocked(previous, intent.generation, intent.desired_hash);
        match commit {
            None => IntentRecoveryStepModel::Commit { state: wal_of_runtime(next) },
            Some(_) => IntentRecoveryStepModel::Publish(next),
        }
    } else if n == 0 {
        if intent.kind == "delete"@ {
            deletion_step(
                delete_finish_step(intent, previous, previous.port_statuses, true, commit),
            )
        } else {
            let next = pending_runtime(
                previous,
                intent,
                "blocked_recovery_required"@,
                "intent_recovery_blocked"@,
            );
            match commit {
                None => IntentRecoveryStepModel::Commit { state: wal_of_runtime(next) },
                Some(OutcomeModel::Done) => IntentRecoveryStepModel::Publish(next),
                Some(OutcomeModel::Failed(_)) => IntentRecoveryStepModel::Publish(previous),
            }
        }
    } else if recoveries.len() < n {
        let port = ports[recoveries.len() as int];
        IntentRecoveryStepModel::RecoverPort {
            port,
            committed_before_intent: previous.ports.dom().contains(port.port_id),
        }
    } else {
        let failed = recovery_failed(recoveries, n);
        let statuses = statuses_after_recovery(
            intent,
            previous.port_statuses,
            ports,
            recoveries,
            n,
        );
        if intent.kind == "delete"@ {
            deletion_step(delete_finish_step(intent, previous, statuses, failed, commit))
        } else {
            let next = recovered_snapshot_runtime(intent, previous, statuses, failed);
            match commit {
                None => IntentRecoveryStepModel::Commit { state: wal_of_runtime(next) },
                Some(OutcomeModel::Done) => IntentRecoveryStepModel::Publish(next),
                Some(OutcomeModel::Failed(_)) => IntentRecoveryStepModel::Publish(
                    pending_runtime(
                        previous,
                        intent,
                        "wal_recovery_commit_failed"@,
                        "commit_failed"@,
                    ),
                ),
            }
        }
    }
}

fn from_deletion(step: DeleteFinishStep) -> (r: IntentRecoveryStep)
    ensures
        r.deep_view() == deletion_step(step.deep_view()),
{
    match step {
        DeleteFinishStep::CommitDelete { state } => IntentRecoveryStep::CommitDelete { state },
        DeleteFinishStep::Publish(runtime) => IntentRecoveryStep::Publish(runtime),
    }
}

fn any_recovery_failed(recoveries: &Vec<IntentPortRecovery>, n: usize) -> (r: bool)
    requires
        n <= recoveries.len(),
    ensures
        r == recovery_failed(recoveries.deep_view(), n as int),
{
    let ghost models = recoveries.deep_view();
    let mut i: usize = 0;
    while i < n
        invariant
            i <= n <= recoveries.len(),
            models == recoveries.deep_view(),
            forall|j: int| 0 <= j < i ==> (#[trigger] models[j]).ok,
        ensures
            i == n,
        decreases n - i,
    {
        assert(models[i as int] == recoveries@[i as int].deep_view());
        if !recoveries[i].ok {
            return true;
        }
        i += 1;
    }
    false
}

/// Records what cleaning up ports came to in their statuses.
pub fn record_recoveries(
    intent: &PendingNeutronIntent,
    statuses: &mut OrderedMap<String, NeutronPortStatus>,
    ports: &Vec<ManagedNeutronPort>,
    recoveries: &Vec<IntentPortRecovery>,
)
    requires
        ports.len() <= recoveries.len(),
    ensures
        final(statuses).deep_view() == statuses_after_recovery(
            intent.deep_view(),
            old(statuses).deep_view(),
            ports.deep_view(),
            recoveries.deep_view(),
            ports.len() as int,
        ),
{
    let ghost start = statuses.deep_view();
    let ghost port_models = ports.deep_view();
    let ghost models = recoveries.deep_view();
    let mut i: usize = 0;
    while i < ports.len()
        invariant
            i <= ports.len() <= recoveries.len(),
            port_models == ports.deep_view(),
            models == recoveries.deep_view(),
            statuses.deep_view() == statuses_after_recovery(
                intent.deep_view(),
                start,
                port_models,
                models,
                i as int,
            ),
        decreases ports.len() - i,
    {
        assert(port_models[i as int] == ports@[i as int].deep_view());
        assert(models[i as int] == recoveries@[i as int].deep_view());
        statuses.insert(
            ports[i].port_id.duplicate(),
            recovery_port_status(intent, &ports[i], &recoveries[i]),
        );
        i += 1;
    }
}

/// Tells what cleaning up after an intent has to do next.
pub fn recover_incomplete_wal_intent(
    intent: &PendingNeutronIntent,
    previous: &NeutronRuntimeState,
    recoveries: &Vec<IntentPortRecovery>,
    commit: &Option<HostOutcome>,
) -> (r: IntentRecoveryStep)
    ensures
        r.deep_view() == intent_recovery_step(
            intent.deep_view(),
            previous.deep_view(),
            recoveries.deep_view(),
            commit.deep_view(),
        ),
{
    if string_is(&intent.recovery_cause, "inventory_unavailable") {
        let next = block_for_inventory(previous, intent.generation, &intent.desired_hash);
        return match commit {
            None => IntentRecoveryStep::Commit { state: next.to_wal_state() },
            Some(_) => IntentRecoveryStep::Publish(next),
        };
    }
    let ports = affected_ports_for_intent(intent, &previous.ports);
    let deletes = text_eq(intent.kind.as_str(), "delete");
    assert(ports.deep_view().len() == ports.len());
    assert(recoveries.deep_view().len() == recoveries.len());
    if ports.len() == 0 {
        if deletes {
            return from_deletion(
                finalize_recovered_delete_intent(
                    intent,
                    previous,
                    &previous.port_statuses,
                    true,
                    commit,
                ),
            );
        }
        let next = keep_pending(
            previous,
            intent,
            "blocked_recovery_required",
            "intent_recovery_blocked",
        );
        return match commit {
            None => IntentRecoveryStep::Commit { state: next.to_wal_state() },
            Some(HostOutcome::Done) => IntentRecoveryStep::Publish(next),
            Some(HostOutcome::Failed(_)) => IntentRecoveryStep::Publish(previous.duplicate()),
        };
    }
    if recoveries.len() < ports.len() {
        let port = &ports[recoveries.len()];
        assert(ports.deep_view()[recoveries.len() as int] == port.deep_view());
        return IntentRecoveryStep::RecoverPort {
            port: port.duplicate(),
            committed_before_intent: previous.ports.contains_key(&port.port_id),
        };
    }
    let failed = any_recovery_failed(recoveries, ports.len());
    let mut statuses = previous.port_statuses.duplicate();
    record_recoveries(intent, &mut statuses, &ports, recoveries);
    if deletes {
        return from_deletion(
            finalize_recovered_delete_intent(intent, previous, &statuses, failed, commit),
        );
    }
    let mut recorded = previous.duplicate();
    recorded.port_statuses = statuses;
    let next = if failed {
        keep_pending(
            &recorded,
            intent,
            "blocked_recovery_required",
            "intent_recovery_blocked",
        )
    } else {
        keep_pending(
            &recorded,
            intent,
            "recovered_pending_full_resync",
            "intent_recovered",
        )
    };
    match commit {
        None => IntentRecoveryStep::Commit { state: next.to_wal_state() },
        Some(HostOutcome::Done) => IntentRecoveryStep::Publish(next),
        Some(HostOutcome::Failed(_)) => IntentRecoveryStep::Publish(
            keep_pending(previous, intent, "wal_recovery_commit_failed", "commit_failed"),
        ),
    }
}

/// Cleaning up after a snapshot keeps every port that was managed, and what was applied.
pub proof fn snapshot_recovery_keeps_what_is_committed(
    intent: PendingNeutronIntentModel,
    previous: NeutronRuntimeStateModel,
    recoveries: Seq<RecoveryModel>,
    commit: Option<OutcomeModel>,
)
    requires
        intent.kind != "delete"@,
        intent_recovery_step(intent, previous, recoveries, commit) is Publish,
    ensures
        ({
            let next = intent_recovery_step(intent, previous, recoveries, commit)->Publish_0;
            &&& next.ports == previous.ports
            &&& next.applied_generation == previous.applied_generation
            &&& next.applied_desired_hash == previous.applied_desired_hash
        }),
{
}

/// An intent that waits for the inventory asks nothing of the host: it is kept as it is.
pub proof fn inventory_intents_touch_no_port(
    intent: PendingNeutronIntentModel,
    previous: NeutronRuntimeStateModel,
    recoveries: Seq<RecoveryModel>,
    commit: Option<OutcomeModel>,
)
    requires
        is_text(intent.recovery_cause, "inventory_unavailable"@),
    ensures
        !(intent_recovery_step(intent, previous, recoveries, commit) is RecoverPort),
        intent_recovery_step(intent, previous, recoveries, commit) is Publish ==> {
            let next = intent_recovery_step(intent, previous, recoveries, commit)->Publish_0;
            &&& next.ports == previous.ports
            &&& next.port_statuses == previous.port_statuses
            &&& next.pending_generation == Some(intent.generation)
            &&& is_text(next.recovery_cause, "inventory_unavailable"@)
        },
{
}

/// Cleaning up a port detaches its interface only once its rules are gone.
pub proof fn recovery_detaches_after_scrubbing(
    intent: PendingNeutronIntentModel,
    port: ManagedNeutronPortModel,
    committed_before_intent: bool,
    h: PortRecoveryHistoryModel,
)
    requires
        port_recovery_step(intent, port, committed_before_intent, h) is Detach,
    ensures
        h.attached == Some(OutcomeModel::Done),
        recovery_domains(intent, port).contains("acl"@) ==> h.purged is Some && h.purged->0 is Ok,
        intent.kind == "delete"@ || !committed_before_intent,
{
}

} // verus!
