//! What holds of each port that a snapshot brings about.

use crate::apply::{
    apply_outcome, apply_settled, apply_start, apply_step, noted, plan_work, ApplyEventModel,
    ApplyModel, ApplyStepModel, ChangeModel, PortHistoryModel, PortOutcomeModel, WorkModel,
};
use crate::domains::{
    acl_hash_payload, domain_name, domain_set, lemma_domain_set_finite, normal_domains,
    ManagedAclPublicationMode,
};
use crate::host::OutcomeModel;
use crate::model::{
    ManagedNeutronPortModel, NeutronDomainStatusModel, NeutronPortSnapshotModel,
    NeutronPortStatusModel, NeutronRuntimeStateModel,
};
use crate::ordered::lemma_in_order;
use crate::payload::payload_hash;
use crate::plan::{SnapshotApplyTransactionModel, SnapshotPlanModel};
use crate::scope::ScopeModel;
use crate::status::worst_state;
use crate::text::lowered;
use crate::transaction::{statuses_by_domain, ManagedProjectionHealth};
use vstd::prelude::*;

verus! {

/// True when the rules of a port are asked to be managed.
pub open spec fn asks_for_rules(port: NeutronPortSnapshotModel) -> bool {
    exists|i: int|
        0 <= i < port.managed_domains.len() && domain_name(#[trigger] port.managed_domains[i])
            == "acl"@
}

/// True when a port asks for nothing but its attachment and its rules.
pub open spec fn asks_for_known_domains(port: NeutronPortSnapshotModel) -> bool {
    forall|i: int|
        0 <= i < port.managed_domains.len() ==> {
            let name = domain_name(#[trigger] port.managed_domains[i]);
            name.len() == 0 || name == "attach"@ || name == "acl"@
        }
}

/// True when a record of a port says what the snapshot asks for: the same interface, the same
/// domains, and the same rules by their hash.
pub open spec fn recorded_as_asked(
    recorded: ManagedNeutronPortModel,
    port: NeutronPortSnapshotModel,
) -> bool {
    &&& recorded.ifname == port.ifname
    &&& recorded.ifindex is Some && port.ifindex is Some ==> recorded.ifindex == port.ifindex
    &&& forall|d: Seq<char>| #[trigger]
        recorded.managed_domains.contains(d) <==> d.len() > 0 && exists|i: int|
            0 <= i < port.managed_domains.len() && domain_name(#[trigger] port.managed_domains[i])
                == d
    &&& asks_for_rules(port) ==> recorded.domain_desired_hashes == map![
        "acl"@ => payload_hash(acl_hash_payload(port.acl_payload)),
    ]
    &&& !asks_for_rules(port) ==> recorded.domain_desired_hashes == Map::<
        Seq<char>,
        Seq<char>,
    >::empty()
}

/// True when a port was reported ready, with every domain that is managed.
pub open spec fn reported_ready(
    status: NeutronPortStatusModel,
    port: NeutronPortSnapshotModel,
) -> bool {
    &&& lowered(status.status) == "ready"@
    &&& forall|i: int|
        0 <= i < port.managed_domains.len() ==> {
            let name = domain_name(#[trigger] port.managed_domains[i]);
            name.len() == 0 || name == "attach"@ || exists|j: int|
                0 <= j < status.domains.len() && (#[trigger] status.domains[j]).domain == name
                    && lowered(status.domains[j].status) == "ready"@
        }
}

proof fn lemma_ready_text()
    ensures
        lowered("ready"@) == "ready"@,
        "acl"@ != "attach"@,
{
    reveal_strlit("ready");
    reveal_strlit("acl");
    reveal_strlit("attach");
    assert("acl"@.len() != "attach"@.len());
    assert(lowered("ready"@) =~= "ready"@);
}

proof fn lemma_status_of_domain(domains: Seq<NeutronDomainStatusModel>, n: int, d: Seq<char>)
    requires
        0 <= n <= domains.len(),
        statuses_by_domain(domains, n).dom().contains(d),
    ensures
        exists|j: int|
            0 <= j < n && (#[trigger] domains[j]).domain == d && domains[j].status
                == statuses_by_domain(domains, n)[d],
    decreases n,
{
    if n > 0 {
        if domains[n - 1].domain != d {
            lemma_status_of_domain(domains, n - 1, d);
        }
    }
}

/// The normal form of names holds each name that is not blank.
pub(crate) proof fn lemma_normal_domains(names: Seq<Seq<char>>)
    ensures
        forall|d: Seq<char>| #[trigger]
            normal_domains(names).contains(d) <==> d.len() > 0 && exists|i: int|
                0 <= i < names.len() && domain_name(#[trigger] names[i]) == d,
{
    lemma_domain_set_finite(names);
    lemma_in_order::<String>(domain_set(names));
}

/// A port is taken over as it is only where nothing about it changed: the snapshot asks for the
/// interface, the domains and the rules that are recorded of it, and it was reported ready. Where
/// its rules are managed they must also be known to be in force, and a snapshot of the whole host
/// brings them about in any case.
pub proof fn only_unchanged_ports_are_reused(ctx: ApplyModel, port: NeutronPortSnapshotModel)
    requires
        ctx.position < ctx.work.len(),
        ctx.work[ctx.position as int] == WorkModel::Update(port),
        apply_step(ctx) is Reuse || (apply_step(ctx) is Settle && apply_step(
            ctx,
        )->Settle_0.result.status == "ok"@ && ctx.history.reconciled is None),
    ensures
        ctx.ports.dom().contains(port.port_id),
        recorded_as_asked(ctx.ports[port.port_id], port),
        ctx.before.port_statuses.dom().contains(port.port_id),
        reported_ready(ctx.before.port_statuses[port.port_id], port),
        asks_for_rules(port) ==> !ctx.full_resync && ctx.history.health == Some(
            Some(ManagedProjectionHealth::Verified),
        ),
{
    lemma_ready_text();
    lemma_normal_domains(port.managed_domains);
    lemma_rules_after_naming(port);
    reveal_strlit("ok");
    reveal_strlit("error");
    reveal_strlit("acl");
    assert("acl"@.len() > 0);
    assert("ok"@ != "error"@) by {
        assert("ok"@.len() != "error"@.len());
    }
    let status = ctx.before.port_statuses[port.port_id];
    let names = normal_domains(port.managed_domains);
    assert forall|i: int| 0 <= i < port.managed_domains.len() implies {
        let name = domain_name(#[trigger] port.managed_domains[i]);
        name.len() == 0 || name == "attach"@ || exists|j: int|
            0 <= j < status.domains.len() && (#[trigger] status.domains[j]).domain == name
                && lowered(status.domains[j].status) == "ready"@
    } by {
        let name = domain_name(port.managed_domains[i]);
        if name.len() > 0 && name != "attach"@ {
            assert(names.contains(name));
            let k = names.index_of(name);
            assert(names[k] == name);
            lemma_status_of_domain(status.domains, status.domains.len() as int, name);
        }
    }
}

/// A port about which anything changed is brought about: once its interface is held and its state
/// was read, its domains are reconciled to what the snapshot asks for now.
pub proof fn changed_ports_are_reconciled(ctx: ApplyModel, port: NeutronPortSnapshotModel)
    requires
        ctx.position < ctx.work.len(),
        ctx.work[ctx.position as int] == WorkModel::Update(port),
        asks_for_known_domains(port),
        ctx.history.attached == Some(OutcomeModel::Done),
        ctx.history.health is Some,
        ctx.history.reconciled is None,
        !ctx.ports.dom().contains(port.port_id) || !recorded_as_asked(
            ctx.ports[port.port_id],
            port,
        ) || ctx.history.reused == Some(false) || (asks_for_rules(port) && (ctx.full_resync
            || ctx.history.health != Some(Some(ManagedProjectionHealth::Verified)))),
    ensures
        apply_step(ctx) == (ApplyStepModel::Reconcile { port, full_resync: ctx.full_resync }),
{
    lemma_known_domains(port);
    reveal_strlit("acl");
    assert("acl"@.len() > 0);
    reveal_strlit("ok");
    reveal_strlit("error");
    if apply_step(ctx) is Reuse || (apply_step(ctx) is Settle && apply_step(
        ctx,
    )->Settle_0.result.status == "ok"@) {
        only_unchanged_ports_are_reused(ctx, port);
    }
}

/// Nothing is left unimplemented exactly where only known domains are asked for.
pub(crate) proof fn lemma_known_domains(port: NeutronPortSnapshotModel)
    ensures
        asks_for_known_domains(port) <==> crate::reconcile::unimplemented(
            port.managed_domains,
        ).len() == 0,
{
    let names = normal_domains(port.managed_domains);
    let p = |domain: Seq<char>| !crate::domains::implemented(domain);
    lemma_normal_domains(port.managed_domains);
    if asks_for_known_domains(port) {
        if names.filter(p).len() > 0 {
            names.lemma_filter_pred(p, 0);
            assert(names.filter(p).contains(names.filter(p)[0]));
            names.lemma_filter_contains_rev(p, names.filter(p)[0]);
            assert(false);
        }
    } else {
        let i = choose|i: int|
            0 <= i < port.managed_domains.len() && !{
                let name = domain_name(#[trigger] port.managed_domains[i]);
                name.len() == 0 || name == "attach"@ || name == "acl"@
            };
        let name = domain_name(port.managed_domains[i]);
        assert(names.contains(name));
        let k = names.index_of(name);
        assert(names[k] == name);
        names.lemma_filter_contains(p, k);
        assert(names.filter(p).contains(name));
    }
}

/// A port with a domain that nobody can bring about fails at once, with nothing asked of the host.
pub proof fn unknown_domains_fail_at_once(ctx: ApplyModel, port: NeutronPortSnapshotModel)
    requires
        ctx.position < ctx.work.len(),
        ctx.work[ctx.position as int] == WorkModel::Update(port) || ctx.work[ctx.position as int]
            == WorkModel::Attach(port),
        !asks_for_known_domains(port),
    ensures
        apply_step(ctx) is Settle,
        apply_step(ctx)->Settle_0.result.status == "error"@,
        apply_step(ctx)->Settle_0.change is Keep,
{
    lemma_known_domains(port);
}

/// The interface that a piece of work is about.
pub open spec fn interface_of(work: WorkModel) -> Seq<char> {
    match work {
        WorkModel::Detach(port) => port.ifname,
        WorkModel::Update(port) => port.ifname,
        WorkModel::Attach(port) => port.ifname,
    }
}

/// Every step for a port is about the interface of that port, and a claim on the interface is for
/// that port, for the generation that is being applied, and for the managed rules exactly where the
/// port asks for rules; then it demands that the rules are in force.
pub proof fn steps_are_about_their_port(ctx: ApplyModel)
    requires
        ctx.position < ctx.work.len(),
    ensures
        ({
            let work = ctx.work[ctx.position as int];
            let step = apply_step(ctx);
            &&& step is Purge ==> step->Purge_ifname == interface_of(work) && step->Purge_port_id
                == work.port_id()
            &&& step is Detach ==> step->Detach_ifname == interface_of(work)
            &&& step is Attach ==> step->Attach_ifname == interface_of(work)
            &&& step is ReadHealth ==> step->ReadHealth_ifname == interface_of(work)
            &&& step is Reconcile ==> {
                &&& work == WorkModel::Update(step->Reconcile_port) || work == WorkModel::Attach(
                    step->Reconcile_port,
                )
                &&& step->Reconcile_full_resync == ctx.full_resync
            }
            &&& step is Reuse || step is Confirm ==> {
                let mark = if step is Reuse {
                    step->Reuse_0
                } else {
                    step->Confirm_0
                };
                &&& mark.ifname == interface_of(work)
                &&& mark.port_id == work.port_id()
                &&& mark.generation == ctx.generation
            }
        }),
{
}

/// Rules are claimed, and demanded to be in force, exactly for the ports that ask for them.
pub proof fn claims_demand_what_was_asked(ctx: ApplyModel, port: NeutronPortSnapshotModel)
    requires
        ctx.position < ctx.work.len(),
        ctx.work[ctx.position as int] == WorkModel::Update(port) || ctx.work[ctx.position as int]
            == WorkModel::Attach(port),
    ensures
        ({
            let step = apply_step(ctx);
            &&& step is Attach ==> step->manages_acl == asks_for_rules(port)
            &&& step is Reuse || step is Confirm ==> {
                let mark = if step is Reuse {
                    step->Reuse_0
                } else {
                    step->Confirm_0
                };
                &&& forall|d: Seq<char>| #[trigger]
                    mark.managed_domains.contains(d) <==> d.len() > 0 && exists|i: int|
                        0 <= i < port.managed_domains.len() && domain_name(
                            #[trigger] port.managed_domains[i],
                        ) == d
                &&& asks_for_rules(port) ==> mark.publication_mode
                    == ManagedAclPublicationMode::ManagedAcl && mark.projection_health == Some(
                    ManagedProjectionHealth::Verified,
                )
                &&& !asks_for_rules(port) ==> mark.publication_mode
                    == ManagedAclPublicationMode::NeutronAttachOwnedStandaloneAcl
                    && mark.projection_health is None
            }
        }),
{
    lemma_normal_domains(port.managed_domains);
    reveal_strlit("acl");
    assert("acl"@.len() > 0);
    lemma_rules_after_naming(port);
}

/// Naming domains keeps whether rules are asked for.
pub(crate) proof fn lemma_rules_after_naming(port: NeutronPortSnapshotModel)
    ensures
        crate::domains::manages_acl(port.managed_domains) == asks_for_rules(port),
        crate::domains::manages_acl(normal_domains(port.managed_domains)) == asks_for_rules(port),
{
    let names = normal_domains(port.managed_domains);
    lemma_normal_domains(port.managed_domains);
    reveal_strlit("acl");
    assert("acl"@.len() > 0);
    crate::domains::normal_domains_are_stable(port.managed_domains);
    lemma_normal_domains(names);
    assert(names.contains("acl"@) <==> asks_for_rules(port));
}

/// What is recorded of a port that was brought about is what the snapshot asks for.
pub proof fn records_say_what_was_asked(ctx: ApplyModel, port: NeutronPortSnapshotModel)
    requires
        ctx.position < ctx.work.len(),
        ctx.work[ctx.position as int] == WorkModel::Update(port) || ctx.work[ctx.position as int]
            == WorkModel::Attach(port),
        apply_step(ctx) is Settle,
        apply_step(ctx)->Settle_0.change is Put,
    ensures
        ({
            let recorded = apply_step(ctx)->Settle_0.change->Put_0;
            &&& recorded.port_id == port.port_id
            &&& recorded.ifindex == port.ifindex
            &&& recorded_as_asked(recorded, port)
        }),
{
    lemma_normal_domains(port.managed_domains);
    lemma_rules_after_naming(port);
}

/// What a port came to is told in full: a port that failed keeps its record and is in error, with
/// the reason; one that did not is recorded, or gone if it was to be detached. The status that is
/// kept is of the generation that is being applied.
pub proof fn outcomes_are_told_in_full(ctx: ApplyModel)
    requires
        ctx.position < ctx.work.len(),
        apply_step(ctx) is Settle,
    ensures
        ({
            let work = ctx.work[ctx.position as int];
            let outcome = apply_step(ctx)->Settle_0;
            let result = outcome.result;
            &&& result.port_id == work.port_id()
            &&& result.ifname == interface_of(work)
            &&& work is Detach ==> result.action == "detach"@
            &&& work is Update ==> result.action == "update"@
            &&& work is Attach ==> result.action == "attach"@
            &&& result.status == "ok"@ || result.status == "error"@
            &&& result.status == "error"@ <==> outcome.change is Keep
            &&& result.status == "ok"@ ==> {
                &&& result.reason is None
                &&& outcome.status is Some
                &&& work is Detach <==> outcome.change is Remove
                &&& work is Detach ==> outcome.status->0.status == "detached"@
            }
            &&& outcome.status matches Some(status) ==> {
                &&& status.port_id == work.port_id()
                &&& status.ifname == interface_of(work)
                &&& status.generation == ctx.generation
                &&& status.desired_hash == ctx.requested_hash
                &&& result.status == "error"@ ==> status.status == "error"@ && status.reason
                    == result.reason
            }
            &&& outcome.status is None ==> work is Attach && ctx.history.fault is Some
                && ctx.history.fault->0 is Failed
        }),
{
    reveal_strlit("ok");
    reveal_strlit("error");
    assert("ok"@.len() != "error"@.len());
}

/// A step that failed fails its port, and the reason says what failed.
pub proof fn failed_steps_fail_the_port(ctx: ApplyModel)
    requires
        ctx.position < ctx.work.len(),
        apply_step(ctx) is Settle,
    ensures
        ({
            let work = ctx.work[ctx.position as int];
            let h = ctx.history;
            let result = apply_step(ctx)->Settle_0.result;
            let known = match work {
                WorkModel::Detach(_) => false,
                WorkModel::Update(port) => asks_for_known_domains(port),
                WorkModel::Attach(port) => asks_for_known_domains(port),
            };
            &&& work is Detach && h.purged is Some && h.purged->0 is Failed ==> result.status
                == "error"@ && result.reason == Some(
                "neutron_acl_purge_failed:"@ + h.purged->0->Failed_0,
            )
            &&& work is Detach && h.purged == Some(OutcomeModel::Done) && h.detached is Some
                && h.detached->0 is Failed ==> result.status == "error"@ && result.reason == Some(
                h.detached->0->Failed_0,
            )
            &&& work is Detach && h.purged == Some(OutcomeModel::Done) && h.detached == Some(
                OutcomeModel::Done,
            ) ==> result.status == "ok"@
            &&& known && h.attached is Some && h.attached->0 is Failed ==> {
                &&& result.status == "error"@
                &&& work is Update ==> result.reason == Some(
                    "managed_acl_ownership_sync_failed:"@ + h.attached->0->Failed_0,
                )
                &&& work is Attach ==> result.reason == Some(h.attached->0->Failed_0)
            }
            &&& known && work is Attach && h.attached == Some(OutcomeModel::Done) && h.fault is Some
                && h.fault->0 is Failed ==> result.status == "error"@ && result.reason == Some(
                h.fault->0->Failed_0,
            )
            &&& !(work is Detach) && result.status == "ok"@ ==> {
                &&& h.attached == Some(OutcomeModel::Done)
                &&& h.reconciled matches Some(brought) ==> (brought.ok && h.confirmed == Some(true))
                    || h.reused == Some(true)
                &&& h.reconciled is None ==> h.reused == Some(true)
            }
        }),
{
    reveal_strlit("ok");
    reveal_strlit("error");
    assert("ok"@.len() != "error"@.len());
    match ctx.work[ctx.position as int] {
        WorkModel::Detach(_) => {},
        WorkModel::Update(port) => lemma_known_domains(port),
        WorkModel::Attach(port) => lemma_known_domains(port),
    }
}

/// What bringing the domains about came to is what the port comes to: every domain is reported as
/// it was left, and a claim that did not hold puts all of them in error.
pub proof fn reconciled_domains_are_reported(ctx: ApplyModel, port: NeutronPortSnapshotModel)
    requires
        ctx.position < ctx.work.len(),
        ctx.work[ctx.position as int] == WorkModel::Update(port) || ctx.work[ctx.position as int]
            == WorkModel::Attach(port),
        asks_for_known_domains(port),
        ctx.history.attached == Some(OutcomeModel::Done),
        ctx.work[ctx.position as int] is Attach ==> ctx.history.fault == Some(OutcomeModel::Done),
        ctx.history.reused != Some(true),
        ctx.history.reconciled is Some,
        apply_step(ctx) is Settle,
    ensures
        ({
            let brought = ctx.history.reconciled->0;
            let outcome = apply_step(ctx)->Settle_0;
            let lost = Some("managed_instance_detached_during_authority_commit"@);
            &&& outcome.status is Some
            &&& !brought.ok ==> {
                &&& outcome.result.status == "error"@
                &&& outcome.result.reason == brought.reason
                &&& outcome.status->0.domains == brought.domains
            }
            &&& brought.ok && ctx.history.confirmed == Some(false) ==> {
                &&& outcome.result.status == "error"@
                &&& outcome.result.reason == lost
                &&& forall|i: int|
                    0 <= i < outcome.status->0.domains.len() ==> (
                    #[trigger] outcome.status->0.domains[i]).status == "error"@
                        && outcome.status->0.domains[i].reason == lost
            }
            &&& brought.ok && ctx.history.confirmed == Some(true) ==> {
                &&& outcome.result.status == "ok"@
                &&& outcome.status->0.domains == brought.domains
            }
            &&& brought.ok ==> ctx.history.confirmed is Some
        }),
{
    lemma_known_domains(port);
}

/// An interface that was attached for a port that then failed is not left behind: its rules are
/// scrubbed and it is detached, unless scrubbing failed, in which case it stays attached.
pub proof fn failed_attachments_are_undone(ctx: ApplyModel, port: NeutronPortSnapshotModel)
    requires
        ctx.position < ctx.work.len(),
        ctx.work[ctx.position as int] == WorkModel::Attach(port),
        asks_for_known_domains(port),
        ctx.history.attached == Some(OutcomeModel::Done),
        apply_step(ctx) is Settle,
        apply_step(ctx)->Settle_0.result.status == "error"@,
    ensures
        ctx.history.fault is Some && ctx.history.fault->0 is Failed ==> ctx.history.detached is Some,
        ctx.history.fault == Some(OutcomeModel::Done) ==> {
            &&& ctx.history.purged is Some
            &&& ctx.history.purged == Some(OutcomeModel::Done) ==> ctx.history.detached is Some
        },
{
    lemma_known_domains(port);
    reveal_strlit("ok");
    reveal_strlit("error");
    assert("ok"@.len() != "error"@.len());
}

/// Rules are scrubbed, and interfaces detached, only where a port is to go or could not be brought
/// about; a port that is updated is never scrubbed nor detached.
pub proof fn only_lost_ports_are_scrubbed(ctx: ApplyModel)
    requires
        ctx.position < ctx.work.len(),
        apply_step(ctx) is Purge || apply_step(ctx) is Detach,
    ensures
        !(ctx.work[ctx.position as int] is Update),
        ctx.work[ctx.position as int] is Attach ==> {
            &&& ctx.history.attached == Some(OutcomeModel::Done)
            &&& {
                ||| ctx.history.fault is Some && ctx.history.fault->0 is Failed
                ||| ctx.history.reconciled is Some && (!ctx.history.reconciled->0.ok
                    || ctx.history.confirmed == Some(false))
            }
        },
{
}

/// The work of a plan is all of the plan, each port once, and ports are detached before any is
/// updated, and updated before any is attached.
pub proof fn all_of_a_plan_is_done_in_order(plan: SnapshotPlanModel)
    ensures
        ({
            let work = plan_work(plan);
            &&& work.len() == plan.detach.len() + plan.update.len() + plan.attach.len()
            &&& forall|i: int|
                0 <= i < plan.detach.len() ==> work.contains(
                    WorkModel::Detach(#[trigger] plan.detach[i]),
                )
            &&& forall|i: int|
                0 <= i < plan.update.len() ==> work.contains(
                    WorkModel::Update(#[trigger] plan.update[i]),
                )
            &&& forall|i: int|
                0 <= i < plan.attach.len() ==> work.contains(
                    WorkModel::Attach(#[trigger] plan.attach[i]),
                )
            &&& forall|i: int, j: int|
                0 <= i < j < work.len() ==> {
                    &&& #[trigger] work[j] is Detach ==> #[trigger] work[i] is Detach
                    &&& work[j] is Update ==> !(work[i] is Attach)
                }
        }),
{
    let work = plan_work(plan);
    let d = plan.detach.len();
    let u = plan.update.len();
    assert forall|i: int| 0 <= i < plan.detach.len() implies work.contains(
        WorkModel::Detach(#[trigger] plan.detach[i]),
    ) by {
        assert(work[i] == WorkModel::Detach(plan.detach[i]));
    }
    assert forall|i: int| 0 <= i < plan.update.len() implies work.contains(
        WorkModel::Update(#[trigger] plan.update[i]),
    ) by {
        assert(work[d + i] == WorkModel::Update(plan.update[i]));
    }
    assert forall|i: int| 0 <= i < plan.attach.len() implies work.contains(
        WorkModel::Attach(#[trigger] plan.attach[i]),
    ) by {
        assert(work[d + u + i] == WorkModel::Attach(plan.attach[i]));
    }
}

/// A snapshot is applied from what is managed now, with what the plan passes over already told;
/// rules are brought about afresh exactly where the snapshot is of the whole host, and then no
/// status is carried over. A snapshot of a single port carries over the statuses of all others.
pub proof fn applying_begins_from_what_is_managed(
    generation: u64,
    requested_hash: Option<Seq<char>>,
    current_ports: Map<Seq<char>, ManagedNeutronPortModel>,
    before: NeutronRuntimeStateModel,
    transaction: SnapshotApplyTransactionModel,
    k: Seq<char>,
)
    ensures
        ({
            let start = apply_start(
                generation,
                requested_hash,
                current_ports,
                before,
                transaction,
            );
            let carried = start.statuses.dom().contains(k);
            &&& start.generation == generation
            &&& start.requested_hash == requested_hash
            &&& start.before == before
            &&& start.ports == current_ports
            &&& start.full_resync == (transaction.scope == ScopeModel::FullHost)
            &&& start.position == 0
            &&& start.inventory_error == transaction.plan.inventory_error
            &&& transaction.plan.inventory_error is None ==> start.results
                == transaction.plan.ignored && start.work.len() == transaction.plan.detach.len()
                + transaction.plan.update.len() + transaction.plan.attach.len()
            &&& transaction.scope == ScopeModel::FullHost ==> !carried
            &&& transaction.scope != ScopeModel::FullHost ==> (carried <==> before.port_statuses
                .dom().contains(k) && transaction.scope != ScopeModel::SinglePort(k))
            &&& carried ==> start.statuses[k] == before.port_statuses[k]
        }),
{
}

/// What comes out of a snapshot is what the ports came to: all their results, records and statuses,
/// and an error where any of them is in error. A snapshot with an error leaves the host partly
/// applied.
pub proof fn the_outcome_is_what_the_ports_came_to(ctx: ApplyModel)
    ensures
        ({
            let outcome = apply_outcome(ctx);
            &&& outcome.results == ctx.results
            &&& ctx.inventory_error is Some ==> outcome.has_error
                && outcome.next_runtime.authority_state == "blocked_recovery_required"@
            &&& ctx.inventory_error is None ==> {
                &&& outcome.has_error <==> exists|i: int|
                    0 <= i < ctx.results.len() && (#[trigger] ctx.results[i]).status == "error"@
                &&& outcome.next_runtime.ports == ctx.ports
                &&& outcome.next_runtime.port_statuses == ctx.statuses
                &&& outcome.next_runtime.recovery_cause is None
                &&& outcome.next_runtime.wal_status == "commit_written"@
                &&& outcome.has_error ==> outcome.next_runtime.authority_state == "partial"@
            }
        }),
{
}

/// A port that is taken over as it is stays ready, with its domains as they were reported before, or
/// ready where none were.
pub proof fn reused_ports_stay_ready(ctx: ApplyModel, port: NeutronPortSnapshotModel)
    requires
        ctx.position < ctx.work.len(),
        ctx.work[ctx.position as int] == WorkModel::Update(port),
        apply_step(ctx) is Settle,
        apply_step(ctx)->Settle_0.result.status == "ok"@,
        ctx.history.reconciled is None,
    ensures
        ({
            let told = apply_step(ctx)->Settle_0.status->0;
            let before = ctx.before.port_statuses[port.port_id].domains;
            &&& apply_step(ctx)->Settle_0.status is Some
            &&& told.status == "ready"@
            &&& told.reason is None
            &&& told.managed_domains == normal_domains(port.managed_domains)
            &&& before.len() > 0 ==> told.domains == before
            &&& before.len() == 0 ==> told.domains.len() == normal_domains(
                port.managed_domains,
            ).len() && forall|i: int|
                0 <= i < told.domains.len() ==> (#[trigger] told.domains[i]).status == "ready"@
                    && told.domains[i].domain == normal_domains(port.managed_domains)[i]
        }),
{
    only_unchanged_ports_are_reused(ctx, port);
    crate::domains::normal_domains_are_stable(port.managed_domains);
    reveal_strlit("ok");
    reveal_strlit("error");
    assert("ok"@.len() != "error"@.len());
}

/// A port that was brought about has the status of the worst of its domains, with its reason.
pub proof fn ports_have_the_status_of_their_worst_domain(
    ctx: ApplyModel,
    port: NeutronPortSnapshotModel,
)
    requires
        ctx.position < ctx.work.len(),
        ctx.work[ctx.position as int] == WorkModel::Update(port) || ctx.work[ctx.position as int]
            == WorkModel::Attach(port),
        ctx.history.reused != Some(true),
        apply_step(ctx) is Settle,
        apply_step(ctx)->Settle_0.result.status == "ok"@,
    ensures
        ({
            let told = apply_step(ctx)->Settle_0.status->0;
            let brought = ctx.history.reconciled->0;
            &&& ctx.history.reconciled is Some
            &&& told.domains == brought.domains
            &&& (told.status, told.reason) == worst_state(brought.domains)
            &&& told.managed_domains == normal_domains(port.managed_domains)
        }),
{
    reveal_strlit("ok");
    reveal_strlit("error");
    assert("ok"@.len() != "error"@.len());
}

/// Settling a port notes what it came to, and goes on to the next with nothing done for it yet: its
/// result is told last, its record is kept, replaced or gone, and its status is the one it came to.
pub proof fn settling_notes_the_outcome(ctx: ApplyModel, outcome: PortOutcomeModel)
    requires
        ctx.position < ctx.work.len() <= usize::MAX,
    ensures
        ({
            let next = apply_settled(ctx, outcome);
            let id = outcome.result.port_id;
            &&& next.position == ctx.position + 1
            &&& next.work == ctx.work
            &&& next.generation == ctx.generation
            &&& next.requested_hash == ctx.requested_hash
            &&& next.full_resync == ctx.full_resync
            &&& next.before == ctx.before
            &&& next.inventory_error == ctx.inventory_error
            &&& next.history == (PortHistoryModel {
                purged: None,
                detached: None,
                attached: None,
                fault: None,
                health: None,
                reused: None,
                reconciled: None,
                confirmed: None,
            })
            &&& next.results.len() == ctx.results.len() + 1
            &&& next.results.last() == outcome.result
            &&& forall|i: int| 0 <= i < ctx.results.len() ==> #[trigger] next.results[i]
                == ctx.results[i]
            &&& outcome.change is Keep ==> next.ports == ctx.ports
            &&& outcome.change is Remove ==> !next.ports.dom().contains(id)
            &&& outcome.change matches ChangeModel::Put(port) ==> next.ports.dom().contains(id)
                && next.ports[id] == port
            &&& outcome.status matches Some(status) ==> next.statuses.dom().contains(id)
                && next.statuses[id] == status
            &&& outcome.status is None ==> next.statuses == ctx.statuses
        }),
{
}

/// What came of a step is noted in its place, and nothing else changes.
pub proof fn events_are_noted_in_their_place(h: PortHistoryModel, event: ApplyEventModel)
    ensures
        ({
            let next = noted(h, event);
            &&& next.purged == if event is Purged {
                Some(event->Purged_0)
            } else {
                h.purged
            }
            &&& next.detached == if event is Detached {
                Some(event->Detached_0)
            } else {
                h.detached
            }
            &&& next.attached == if event is Attached {
                Some(event->Attached_0)
            } else {
                h.attached
            }
            &&& next.fault == if event is FaultChecked {
                Some(event->FaultChecked_0)
            } else {
                h.fault
            }
            &&& next.health == if event is HealthRead {
                Some(event->HealthRead_0)
            } else {
                h.health
            }
            &&& next.reused == if event is Reused {
                Some(event->Reused_0)
            } else {
                h.reused
            }
            &&& next.reconciled == if event is Reconciled {
                Some(event->Reconciled_0)
            } else {
                h.reconciled
            }
            &&& next.confirmed == if event is Confirmed {
                Some(event->Confirmed_0)
            } else {
                h.confirmed
            }
        }),
{
}

/// A port about which nothing changed is taken over as it is, without touching its rules: it is
/// recorded as the snapshot asks for it, every domain was reported ready, and where its rules are
/// managed they are in force and the snapshot is not of the whole host.
pub proof fn unchanged_ports_are_reused(ctx: ApplyModel, port: NeutronPortSnapshotModel)
    requires
        ctx.position < ctx.work.len(),
        ctx.work[ctx.position as int] == WorkModel::Update(port),
        asks_for_known_domains(port),
        ctx.history.attached == Some(OutcomeModel::Done),
        ctx.history.health is Some,
        asks_for_rules(port) ==> !ctx.full_resync && ctx.history.health == Some(
            Some(ManagedProjectionHealth::Verified),
        ),
        ctx.ports.dom().contains(port.port_id),
        recorded_as_asked(ctx.ports[port.port_id], port),
        ctx.ports[port.port_id].managed_domains == normal_domains(port.managed_domains),
        ctx.before.port_statuses.dom().contains(port.port_id),
        reported_ready(ctx.before.port_statuses[port.port_id], port),
        forall|j: int|
            0 <= j < ctx.before.port_statuses[port.port_id].domains.len() ==> lowered(
                (#[trigger] ctx.before.port_statuses[port.port_id].domains[j]).status,
            ) == "ready"@,
    ensures
        ctx.history.reused is None ==> apply_step(ctx) is Reuse,
        ctx.history.reused == Some(true) ==> apply_step(ctx) is Settle && apply_step(
            ctx,
        )->Settle_0.result.status == "ok"@,
{
    lemma_ready_text();
    lemma_known_domains(port);
    lemma_normal_domains(port.managed_domains);
    lemma_rules_after_naming(port);
    let status = ctx.before.port_statuses[port.port_id];
    let names = normal_domains(port.managed_domains);
    let by_domain = statuses_by_domain(status.domains, status.domains.len() as int);
    assert forall|i: int| 0 <= i < names.len() && #[trigger] names[i] != "attach"@ implies
        by_domain.dom().contains(names[i]) && lowered(by_domain[names[i]]) == lowered(
        "ready"@,
    ) by {
        assert(names.contains(names[i]));
        let k = choose|k: int|
            0 <= k < port.managed_domains.len() && domain_name(#[trigger] port.managed_domains[k])
                == names[i];
        let j = choose|j: int|
            0 <= j < status.domains.len() && (#[trigger] status.domains[j]).domain == names[i];
        lemma_domain_known(status.domains, status.domains.len() as int, j);
        lemma_status_of_domain(status.domains, status.domains.len() as int, names[i]);
    }
    assert(ctx.ports[port.port_id].domain_desired_hashes
        =~= crate::domains::desired_hashes(port));
}

proof fn lemma_domain_known(domains: Seq<NeutronDomainStatusModel>, n: int, j: int)
    requires
        0 <= j < n <= domains.len(),
    ensures
        statuses_by_domain(domains, n).dom().contains(domains[j].domain),
    decreases n,
{
    if j < n - 1 {
        lemma_domain_known(domains, n - 1, j);
    }
}

/// A port that failed before its domains were brought about has each of them in error, for the same
/// reason; a port that was detached has each of them detached.
pub proof fn all_domains_share_the_fate_of_the_port(ctx: ApplyModel, i: int)
    requires
        ctx.position < ctx.work.len(),
        apply_step(ctx) is Settle,
        apply_step(ctx)->Settle_0.status is Some,
        ctx.history.reconciled is None,
        ctx.history.reused != Some(true),
        0 <= i < apply_step(ctx)->Settle_0.status->0.domains.len(),
    ensures
        ({
            let outcome = apply_step(ctx)->Settle_0;
            let told = outcome.status->0.domains;
            let names = match ctx.work[ctx.position as int] {
                WorkModel::Detach(port) => port.managed_domains,
                WorkModel::Update(port) => port.managed_domains,
                WorkModel::Attach(port) => port.managed_domains,
            };
            &&& told.len() == normal_domains(names).len()
            &&& told[i].domain == normal_domains(names)[i]
            &&& told[i].effective_action is None
            &&& outcome.result.status == "error"@ ==> told[i].status == "error"@ && told[i].reason
                == outcome.result.reason
            &&& outcome.result.status == "ok"@ ==> ctx.work[ctx.position as int] is Detach
                && told[i].status == "detached"@ && told[i].reason is None
        }),
{
    reveal_strlit("ok");
    reveal_strlit("error");
    assert("ok"@.len() != "error"@.len());
    match ctx.work[ctx.position as int] {
        WorkModel::Detach(_) => {},
        WorkModel::Update(port) => {
            crate::domains::normal_domains_are_stable(port.managed_domains);
        },
        WorkModel::Attach(port) => {
            crate::domains::normal_domains_are_stable(port.managed_domains);
        },
    }
}

/// A snapshot whose inventory is not complete has nothing to do, and tells so in one result of its
/// own, in error, behind what the plan passes over.
pub proof fn incomplete_inventories_are_told(
    generation: u64,
    requested_hash: Option<Seq<char>>,
    current_ports: Map<Seq<char>, ManagedNeutronPortModel>,
    before: NeutronRuntimeStateModel,
    transaction: SnapshotApplyTransactionModel,
)
    requires
        transaction.plan.inventory_error is Some,
    ensures
        ({
            let start = apply_start(
                generation,
                requested_hash,
                current_ports,
                before,
                transaction,
            );
            let told = start.results.last();
            &&& start.work.len() == 0
            &&& start.results.len() == transaction.plan.ignored.len() + 1
            &&& start.results.drop_last() == transaction.plan.ignored
            &&& told.port_id == "snapshot"@
            &&& told.action == "ignore"@
            &&& told.status == "error"@
            &&& told.reason == transaction.plan.inventory_error
        }),
{
    let start = apply_start(generation, requested_hash, current_ports, before, transaction);
    assert(start.results.drop_last() =~= transaction.plan.ignored);
}

} // verus!
