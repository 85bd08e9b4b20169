//! What the report on the agent says of its ports, and what it asks for.

use crate::counters::CountersModel;
use crate::domains::{domain_name, normal_domains, plain_domain};
use crate::model::{
    ManagedNeutronPortModel, NeutronDomainStatusModel, NeutronPortStatusModel,
    NeutronRuntimeStateModel,
};
use crate::ordered::{in_order, lemma_in_order, values_in_order};
use crate::status_response::status_report;
use crate::status_v1::{
    class_at, domain_class, domain_evidence, domains_evidence, evidence_names, overall_class,
    port_class, projection, retryable_projection, row_at, worse_class, worst_domain, worst_port,
    DomainEvidenceModel, NeutronStatusDomainState, NeutronStatusEffectiveAction,
    NeutronStatusOverallReadiness, NeutronStatusRecoveryCause, NeutronStatusRequiredAction,
    NeutronStatusSupportDisposition, NeutronStatusTransactionState, StatusV1EvidenceClass,
};
use crate::text::{has_prefix, has_suffix, lowered, trimmed};
use vstd::prelude::*;

verus! {

/// True when a reason says that something is not supported.
pub open spec fn names_unsupported(reason: Option<Seq<char>>) -> bool {
    reason matches Some(text) && {
        ||| text == "acl_not_supported"@
        ||| has_prefix(text, "acl_rule_limit_exceeded:"@)
        ||| has_prefix(text, "acl_selector_member_limit_exceeded:"@)
        ||| has_prefix(text, "unsupported_acl_"@)
        ||| has_prefix(text, "invalid_acl_priority:"@)
        ||| has_prefix(text, "duplicate_acl_priority:"@)
        ||| has_prefix(text, "blocked_by_unimplemented_domains:"@)
        ||| has_prefix(text, "unsupported_recovery_domain:"@)
        ||| has_suffix(text, "_transaction_not_implemented"@)
    }
}

/// True when a reason is one that a full resync mends.
pub open spec fn mended_by_resync(reason: Option<Seq<char>>) -> bool {
    ||| reason == Some("runtime_rebuild_required"@)
    ||| reason == Some("acl_restart_replay_requires_resync"@)
    ||| reason == Some("tc_acl_link_lost"@)
}

/// True when a domain is shown to be what it should be: attached; filtering, with the rules
/// enforced; or without rules, with the traffic let through.
pub open spec fn shown_ready(domain: NeutronDomainStatusModel) -> bool {
    let name = domain_name(domain.domain);
    ||| name == "attach"@ && domain.status == "ready"@ && domain.effective_action is None
        && !names_unsupported(domain.reason)
    ||| name == "acl"@ && domain.status == "ready"@ && domain.effective_action == Some("enforce"@)
        && !names_unsupported(domain.reason)
    ||| name == "acl"@ && domain.status == "not_requested"@ && (domain.effective_action == Some(
        "bypass"@,
    ) || domain.effective_action == Some("no_op"@))
}

/// True when the rules of a port are shown to be out of force in a way that is known.
pub open spec fn shown_degraded(domain: NeutronDomainStatusModel) -> bool {
    &&& domain_name(domain.domain) == "acl"@
    &&& domain.status == "degraded"@ || domain.status == "unsupported"@
    &&& domain.effective_action == Some("bypass"@) || domain.effective_action == Some(
        "unchanged"@,
    )
}

proof fn lemma_names()
    ensures
        "ready"@ != "not_requested"@,
        "ready"@ != "degraded"@,
        "ready"@ != "unsupported"@,
        "not_requested"@ != "degraded"@,
        "not_requested"@ != "unsupported"@,
        "degraded"@ != "unsupported"@,
        "acl"@ != "attach"@,
        "acl"@.len() > 0,
        "attach"@.len() > 0,
        "enforce"@ != "bypass"@,
        "enforce"@ != "unchanged"@,
        "enforce"@ != "no_op"@,
        "enforce"@ != "cleanup"@,
        "bypass"@ != "unchanged"@,
        "bypass"@ != "cleanup"@,
        "bypass"@ != "no_op"@,
        "unchanged"@ != "cleanup"@,
        "unchanged"@ != "no_op"@,
        "cleanup"@ != "no_op"@,
{
    reveal_strlit("ready");
    reveal_strlit("not_requested");
    reveal_strlit("degraded");
    reveal_strlit("unsupported");
    reveal_strlit("acl");
    reveal_strlit("attach");
    reveal_strlit("enforce");
    reveal_strlit("bypass");
    reveal_strlit("unchanged");
    reveal_strlit("cleanup");
    reveal_strlit("no_op");
    assert("ready"@.len() == 5 && "not_requested"@.len() == 13 && "degraded"@.len() == 8);
    assert("unsupported"@.len() == 11 && "acl"@.len() == 3 && "attach"@.len() == 6);
    assert("enforce"@[0] == 'e' && "bypass"@[0] == 'b' && "unchanged"@[0] == 'u');
    assert("cleanup"@[0] == 'c' && "no_op"@[0] == 'n');
}

/// A domain counts as ready exactly where it is shown to be; as degraded where its rules are known
/// to be out of force, and then a full resync is called for exactly where the reason is one that a
/// resync mends. Everything else blocks.
pub proof fn domains_are_judged_by_what_is_shown(domain: NeutronDomainStatusModel)
    ensures
        domain_class(domain) == StatusV1EvidenceClass::Ready <==> shown_ready(domain),
        domain_class(domain) == StatusV1EvidenceClass::FullResync <==> shown_degraded(domain)
            && mended_by_resync(domain.reason),
        domain_class(domain) == StatusV1EvidenceClass::TerminalDegraded <==> shown_degraded(domain)
            && !mended_by_resync(domain.reason),
{
    lemma_names();
    lemma_resync_supported(domain.reason);
}

proof fn lemma_resync_supported(reason: Option<Seq<char>>)
    ensures
        crate::status_v1::resync_reason(reason) == mended_by_resync(reason),
        crate::status_v1::unsupported_reason(reason) == names_unsupported(reason),
{
}

/// The evidence on a domain says what the status of the domain says.
pub proof fn evidence_says_what_the_status_says(domain: NeutronDomainStatusModel)
    ensures
        ({
            let told = domain_evidence(domain);
            let name = domain_name(domain.domain);
            &&& name.len() > 0 ==> told.domain == name
            &&& name.len() == 0 ==> told.domain == domain.domain
            &&& told.reason == domain.reason
            &&& told.status == NeutronStatusDomainState::Ready <==> domain.status == "ready"@
            &&& told.status == NeutronStatusDomainState::NotRequested <==> domain.status
                == "not_requested"@
            &&& told.status == NeutronStatusDomainState::Degraded <==> domain.status == "degraded"@
                || domain.status == "unsupported"@
            &&& told.effective_action == Some(NeutronStatusEffectiveAction::Enforce)
                <==> domain.effective_action == Some("enforce"@)
            &&& told.effective_action == Some(NeutronStatusEffectiveAction::Bypass)
                <==> domain.effective_action == Some("bypass"@)
            &&& told.effective_action == Some(NeutronStatusEffectiveAction::Unchanged)
                <==> domain.effective_action == Some("unchanged"@)
            &&& told.effective_action == Some(NeutronStatusEffectiveAction::Cleanup)
                <==> domain.effective_action == Some("cleanup"@)
            &&& told.effective_action == Some(NeutronStatusEffectiveAction::NoOp)
                <==> domain.effective_action == Some("no_op"@)
            &&& told.support_disposition == NeutronStatusSupportDisposition::NotApplicable
                <==> told.domain == "acl"@ && domain.status == "not_requested"@
            &&& told.support_disposition == NeutronStatusSupportDisposition::Unsupported <==> !(
            told.domain == "acl"@ && domain.status == "not_requested"@) && (domain.status
                == "unsupported"@ || names_unsupported(domain.reason))
            &&& told.support_disposition == NeutronStatusSupportDisposition::Supported ==> {
                &&& domain.status != "unsupported"@
                &&& !names_unsupported(domain.reason)
                &&& mended_by_resync(domain.reason) || domain.status == "ready"@
            }
            &&& domain.status == "ready"@ && (told.domain == "acl"@ || told.domain == "attach"@)
                && !names_unsupported(domain.reason) ==> told.support_disposition
                == NeutronStatusSupportDisposition::Supported
        }),
{
    lemma_names();
    lemma_resync_supported(domain.reason);
}

proof fn lemma_worst_domain(domains: Seq<NeutronDomainStatusModel>, n: int)
    requires
        0 <= n <= domains.len(),
    ensures
        forall|i: int|
            0 <= i < n ==> domain_class(#[trigger] domains[i]).rank() <= worst_domain(
                domains,
                n,
            ).rank(),
        worst_domain(domains, n) != StatusV1EvidenceClass::Ready ==> exists|i: int|
            0 <= i < n && domain_class(#[trigger] domains[i]) == worst_domain(domains, n),
    decreases n,
{
    if n > 0 {
        lemma_worst_domain(domains, n - 1);
    }
}

/// A port counts as ready only where it says so and every one of its domains is shown to be; a port
/// whose every domain is shown ready, each once, does count.
pub proof fn ports_are_ready_only_with_all_domains(status: NeutronPortStatusModel)
    ensures
        ({
            let distinct = forall|i: int, j: int|
                0 <= i < j < status.domains.len() ==> domain_name(
                    (#[trigger] status.domains[i]).domain,
                ) != domain_name((#[trigger] status.domains[j]).domain);
            let shown = forall|i: int|
                0 <= i < status.domains.len() ==> shown_ready(#[trigger] status.domains[i]);
            &&& port_class(status) == StatusV1EvidenceClass::Ready ==> {
                &&& status.status == "ready"@ || status.status == "not_requested"@
                &&& shown
                &&& status.status == "not_requested"@ ==> status.domains.len() == 1
                    && status.domains[0].status == "not_requested"@
            }
            &&& status.status == "ready"@ && shown && distinct ==> port_class(status)
                == StatusV1EvidenceClass::Ready
        }),
{
    lemma_names();
    let domains = status.domains;
    let n = domains.len() as int;
    lemma_worst_domain(domains, n);
    assert forall|i: int| 0 <= i < n implies (shown_ready(#[trigger] domains[i]) <==> domain_class(
        domains[i],
    ) == StatusV1EvidenceClass::Ready) by {
        domains_are_judged_by_what_is_shown(domains[i]);
    }
    let names = crate::status_v1::evidence_names(domains);
    if status.status == "ready"@ && (forall|i: int|
        0 <= i < domains.len() ==> shown_ready(#[trigger] domains[i])) && (forall|i: int, j: int|
        0 <= i < j < status.domains.len() ==> domain_name((#[trigger] status.domains[i]).domain)
            != domain_name((#[trigger] status.domains[j]).domain)) {
        assert forall|i: int| 0 <= i < names.len() implies trimmed(#[trigger] names[i]).len()
            > 0 by {
            assert(shown_ready(domains[i]));
            lemma_trimmed_names();
        }
        assert forall|i: int, j: int|
            0 <= i < names.len() && 0 <= j < names.len() && i != j implies names[i] != names[j] by {
            assert(shown_ready(domains[i]) && shown_ready(domains[j]));
            assert(names[i] == domain_name(domains[i].domain));
            assert(names[j] == domain_name(domains[j].domain));
            if i < j {
                assert(domain_name(domains[i].domain) != domain_name(domains[j].domain));
            } else {
                assert(domain_name(domains[j].domain) != domain_name(domains[i].domain));
            }
        }
    }
    if port_class(status) == StatusV1EvidenceClass::Ready && status.status == "not_requested"@ {
        evidence_says_what_the_status_says(domains[0]);
        assert(crate::status_v1::domains_evidence(domains)[0] == domain_evidence(domains[0]));
        lemma_rules_name();
        assert(shown_ready(domains[0]));
    }
}

proof fn lemma_rules_name()
    ensures
        domain_name("acl"@) == "acl"@,
{
    lemma_trimmed_names();
    reveal_strlit("acl");
    reveal_strlit("policy");
    reveal_strlit("groups");
    reveal_strlit("address_sets");
    reveal_strlit("aria_acl");
    reveal_strlit("aria_qos");
    reveal_strlit("aria_mirror");
    assert(lowered("acl"@) =~= "acl"@);
    assert(plain_domain("acl"@) =~= "acl"@);
    assert("acl"@.len() == 3);
}

proof fn lemma_trimmed_names()
    ensures
        trimmed("acl"@) == "acl"@,
        trimmed("attach"@) == "attach"@,
{
    reveal_strlit("acl");
    reveal_strlit("attach");
    assert("acl"@[0] == 'a' && "acl"@.last() == 'l');
    assert("attach"@[0] == 'a' && "attach"@.last() == 'h');
    assert(crate::text::trimmed_start("acl"@) == "acl"@);
    assert(crate::text::trimmed_start("attach"@) == "attach"@);
}

/// A port counts as degraded only where it says so and the worst of its domains is; it calls for a
/// full resync exactly where its reason or that of one of its domains is one that a resync mends.
pub proof fn ports_are_degraded_with_their_domains(status: NeutronPortStatusModel)
    ensures
        ({
            let class = port_class(status);
            let degraded = class == StatusV1EvidenceClass::TerminalDegraded || class
                == StatusV1EvidenceClass::FullResync;
            &&& degraded ==> {
                &&& status.status == "degraded"@ || status.status == "unsupported"@
                &&& forall|i: int|
                    0 <= i < status.domains.len() ==> shown_ready(#[trigger] status.domains[i])
                        || shown_degraded(status.domains[i])
                &&& exists|i: int|
                    0 <= i < status.domains.len() && shown_degraded(#[trigger] status.domains[i])
            }
            &&& degraded ==> (class == StatusV1EvidenceClass::FullResync <==> mended_by_resync(
                status.reason,
            ) || exists|i: int|
                0 <= i < status.domains.len() && shown_degraded(#[trigger] status.domains[i])
                    && mended_by_resync(status.domains[i].reason))
        }),
{
    lemma_names();
    lemma_resync_supported(status.reason);
    let domains = status.domains;
    let n = domains.len() as int;
    lemma_worst_domain(domains, n);
    assert forall|i: int| 0 <= i < n implies ({
        let class = domain_class(#[trigger] domains[i]);
        &&& class == StatusV1EvidenceClass::Ready <==> shown_ready(domains[i])
        &&& class == StatusV1EvidenceClass::FullResync <==> shown_degraded(domains[i])
            && mended_by_resync(domains[i].reason)
        &&& class == StatusV1EvidenceClass::TerminalDegraded <==> shown_degraded(domains[i])
            && !mended_by_resync(domains[i].reason)
    }) by {
        domains_are_judged_by_what_is_shown(domains[i]);
    }
}

/// A port is reported only where what is recorded of it and its status agree: the same identity,
/// interface and domains, of a generation that is applied, with its hash. A port that is no longer
/// managed is reported only as detached.
pub proof fn reported_ports_agree_with_their_record(
    runtime: NeutronRuntimeStateModel,
    key: Seq<char>,
)
    requires
        row_at(runtime, key) is Some,
    ensures
        ({
            let row = row_at(runtime, key)->0;
            let status = runtime.port_statuses[key];
            &&& runtime.port_statuses.dom().contains(key)
            &&& row.port_id == key
            &&& status.port_id == key
            &&& key.len() > 0
            &&& row.ifname == status.ifname
            &&& row.generation == status.generation
            &&& row.desired_hash == status.desired_hash
            &&& row.status == status.status
            &&& row.reason == status.reason
            &&& row.managed_domains == normal_domains(status.managed_domains)
            &&& 0 < status.generation <= runtime.applied_generation
            &&& status.desired_hash matches Some(hash) && trimmed(hash).len() > 0
            &&& status.generation == runtime.applied_generation ==> status.desired_hash
                == runtime.applied_desired_hash
            &&& runtime.ports.dom().contains(key) ==> {
                &&& runtime.ports[key].port_id == key
                &&& runtime.ports[key].ifname == status.ifname
                &&& normal_domains(runtime.ports[key].managed_domains) == normal_domains(
                    status.managed_domains,
                )
                &&& status.ifname.len() == 0 ==> status.status == "degraded"@ || status.status
                    == "unsupported"@
            }
            &&& !runtime.ports.dom().contains(key) ==> {
                &&& status.status == "detached"@
                &&& status.ifname.len() > 0
                &&& row.domains.len() == status.domains.len()
                &&& forall|i: int|
                    0 <= i < status.domains.len() ==> (#[trigger] status.domains[i]).status
                        == "detached"@ && row.domains[i].effective_action == Some(
                        NeutronStatusEffectiveAction::Cleanup,
                    ) && row.domains[i].domain == domain_name(status.domains[i].domain)
            }
        }),
{
}

proof fn lemma_worst_port(runtime: NeutronRuntimeStateModel, keys: Seq<Seq<char>>, n: int)
    requires
        0 <= n <= keys.len(),
    ensures
        forall|i: int|
            0 <= i < n ==> class_at(runtime, #[trigger] keys[i]).rank() <= worst_port(
                runtime,
                keys,
                n,
            ).rank(),
        worst_port(runtime, keys, n) != StatusV1EvidenceClass::Ready ==> exists|i: int|
            0 <= i < n && class_at(runtime, #[trigger] keys[i]) == worst_port(runtime, keys, n),
    decreases n,
{
    if n > 0 {
        lemma_worst_port(runtime, keys, n - 1);
    }
}

/// All ports together are as bad as the worst of them: no port is worse, and one is as bad. A port
/// that is not managed any more decides nothing once it is reported, and a port or status that
/// cannot be reported blocks.
pub proof fn the_worst_port_decides(runtime: NeutronRuntimeStateModel, key: Seq<char>)
    requires
        runtime.ports.dom().finite(),
        runtime.port_statuses.dom().finite(),
    ensures
        ({
            let class = overall_class(runtime);
            let known = runtime.ports.dom().contains(key) || runtime.port_statuses.dom().contains(
                key,
            );
            &&& known ==> {
                &&& row_at(runtime, key) is None ==> class == StatusV1EvidenceClass::Blocked
                &&& runtime.ports.dom().contains(key) ==> port_class(
                    runtime.port_statuses[key],
                ).rank() <= class.rank() || row_at(runtime, key) is None
            }
            &&& class != StatusV1EvidenceClass::Ready ==> exists|k: Seq<char>|
                (#[trigger] runtime.ports.dom().contains(k) || runtime.port_statuses.dom().contains(
                    k,
                )) && ((row_at(runtime, k) is None && class == StatusV1EvidenceClass::Blocked) || (
                row_at(runtime, k) is Some && runtime.ports.dom().contains(k) && port_class(
                    runtime.port_statuses[k],
                ) == class))
        }),
{
    let ports = in_order::<String>(runtime.ports.dom());
    let statuses = in_order::<String>(runtime.port_statuses.dom());
    lemma_in_order::<String>(runtime.ports.dom());
    lemma_in_order::<String>(runtime.port_statuses.dom());
    lemma_worst_port(runtime, ports, ports.len() as int);
    lemma_worst_port(runtime, statuses, statuses.len() as int);
    let class = overall_class(runtime);
    if runtime.ports.dom().contains(key) {
        assert(ports.contains(key));
        let i = ports.index_of(key);
        assert(class_at(runtime, ports[i]).rank() <= class.rank());
    }
    if runtime.port_statuses.dom().contains(key) {
        assert(statuses.contains(key));
        let i = statuses.index_of(key);
        assert(class_at(runtime, statuses[i]).rank() <= class.rank());
    }
    if class != StatusV1EvidenceClass::Ready {
        let a = worst_port(runtime, ports, ports.len() as int);
        let b = worst_port(runtime, statuses, statuses.len() as int);
        if class == a {
            let i = choose|i: int|
                0 <= i < ports.len() && class_at(runtime, #[trigger] ports[i]) == a;
            assert(ports.contains(ports[i]));
            assert(runtime.ports.dom().contains(ports[i]));
        } else {
            let i = choose|i: int|
                0 <= i < statuses.len() && class_at(runtime, #[trigger] statuses[i]) == b;
            assert(statuses.contains(statuses[i]));
            assert(runtime.port_statuses.dom().contains(statuses[i]));
            assert(runtime.ports.dom().contains(statuses[i])
                || !runtime.ports.dom().contains(statuses[i]));
        }
    }
}

/// True when what is applied is told in full: what was accepted is applied, under one hash.
pub open spec fn settled(runtime: NeutronRuntimeStateModel) -> bool {
    &&& runtime.pending_generation is None
    &&& runtime.accepted_generation == runtime.applied_generation
    &&& runtime.desired_hash == runtime.applied_desired_hash
    &&& runtime.applied_generation > 0 ==> (runtime.applied_desired_hash matches Some(hash)
        && trimmed(hash).len() > 0)
    &&& runtime.applied_generation == 0 ==> runtime.applied_desired_hash is None
}

/// True when a pending snapshot says of itself what recovering it takes.
pub open spec fn told_pending(runtime: NeutronRuntimeStateModel) -> bool {
    &&& runtime.pending_generation matches Some(pending) && {
        &&& pending > 0
        &&& pending >= runtime.applied_generation
        &&& runtime.accepted_generation == runtime.applied_generation
            || runtime.accepted_generation == pending
        &&& pending == runtime.applied_generation ==> runtime.desired_hash
            == runtime.applied_desired_hash
    }
    &&& runtime.desired_hash matches Some(hash) && trimmed(hash).len() > 0
    &&& runtime.applied_generation > 0 ==> (runtime.applied_desired_hash matches Some(hash)
        && trimmed(hash).len() > 0)
}

/// True when nothing was ever asked of the agent.
pub open spec fn unused(runtime: NeutronRuntimeStateModel) -> bool {
    &&& runtime.accepted_generation == 0
    &&& runtime.applied_generation == 0
    &&& runtime.pending_generation is None
    &&& runtime.desired_hash is None
    &&& runtime.applied_desired_hash is None
    &&& runtime.ports =~= Map::<Seq<char>, ManagedNeutronPortModel>::empty()
    &&& runtime.port_statuses =~= Map::<Seq<char>, NeutronPortStatusModel>::empty()
    &&& runtime.recovery_cause is None
    &&& runtime.authority_state.len() == 0 || runtime.authority_state == "idle"@
}

proof fn lemma_states()
    ensures
        "ready"@ != "runtime_degraded"@,
        "ready"@ != "recovered_pending_full_resync_required"@,
        "runtime_degraded"@ != "recovered_pending_full_resync_required"@,
        "applying"@ != "partial"@,
        "accepted"@ != "partial"@,
        "applying"@ != "blocked_recovery_required"@,
        "accepted"@ != "blocked_recovery_required"@,
        "applying"@ != "recovered_pending_full_resync"@,
        "accepted"@ != "recovered_pending_full_resync"@,
        "ready"@ != "degraded"@,
        "ready"@ != "runtime_reconcile_requires_full_resync"@,
        "degraded"@ != "runtime_degraded"@,
        "degraded"@ != "recovered_pending_full_resync_required"@,
        "runtime_reconcile_requires_full_resync"@ != "runtime_degraded"@,
        "runtime_reconcile_requires_full_resync"@ != "recovered_pending_full_resync_required"@,
{
    reveal_strlit("ready");
    reveal_strlit("runtime_degraded");
    reveal_strlit("recovered_pending_full_resync_required");
    reveal_strlit("applying");
    reveal_strlit("accepted");
    reveal_strlit("partial");
    reveal_strlit("blocked_recovery_required");
    reveal_strlit("recovered_pending_full_resync");
    reveal_strlit("degraded");
    reveal_strlit("runtime_reconcile_requires_full_resync");
    assert("ready"@.len() == 5 && "runtime_degraded"@.len() == 16 && "applying"@.len() == 8);
    assert("accepted"@.len() == 8 && "partial"@.len() == 7 && "degraded"@.len() == 8);
    assert("blocked_recovery_required"@.len() == 25 && "recovered_pending_full_resync"@.len()
        == 29);
    assert("recovered_pending_full_resync_required"@.len() == 38);
    assert("runtime_reconcile_requires_full_resync"@.len() == 38);
    assert("recovered_pending_full_resync_required"@[1] == 'e');
    assert("runtime_reconcile_requires_full_resync"@[1] == 'u');
}

/// What the report asks for is what the state calls for. An agent that was never used asks for
/// everything to be sent; one that is applying asks to wait; a snapshot that stopped on the way is
/// to be given up; an agent that is settled asks for nothing where its ports are ready or degraded
/// for good, and for a full resync where that mends them. Anything that cannot be told is left to an
/// operator.
pub proof fn the_report_asks_for_what_is_needed(runtime: NeutronRuntimeStateModel)
    ensures
        ({
            let told = projection(runtime);
            let class = overall_class(runtime);
            let state = runtime.authority_state;
            let sound = runtime.wal_replay_failures == 0;
            let calm = sound && runtime.recovery_cause is None;
            let waits = sound && runtime.recovery_cause == Some("inventory_unavailable"@);
            &&& told.last_classified_generation == runtime.applied_generation
            &&& told.recovery_cause is Some ==> waits
            &&& calm && unused(runtime) ==> told.transaction_state
                == NeutronStatusTransactionState::Idle && told.overall_readiness
                == NeutronStatusOverallReadiness::Unknown && told.required_action
                == NeutronStatusRequiredAction::FullResync
            &&& told.transaction_state == NeutronStatusTransactionState::Idle ==> unused(runtime)
            &&& calm && told_pending(runtime) && (state == "applying"@ || state == "accepted"@)
                <==> told.required_action == NeutronStatusRequiredAction::Poll
            &&& told.required_action == NeutronStatusRequiredAction::Poll
                <==> told.transaction_state == NeutronStatusTransactionState::Pending
            &&& calm && told_pending(runtime) && runtime.applied_generation > 0 && (state
                == "partial"@ || state == "blocked_recovery_required"@ || state
                == "recovered_pending_full_resync"@) ==> told.required_action
                == NeutronStatusRequiredAction::RecoverPending && told.overall_readiness
                == NeutronStatusOverallReadiness::Blocked
            &&& told.required_action == NeutronStatusRequiredAction::RecoverPending ==> {
                &&& told_pending(runtime)
                &&& sound
                &&& told.overall_readiness == NeutronStatusOverallReadiness::Blocked
                &&& state == "partial"@ || state == "blocked_recovery_required"@ || state
                    == "recovered_pending_full_resync"@
                &&& told.recovery_cause == if waits {
                    Some(NeutronStatusRecoveryCause::InventoryUnavailable)
                } else {
                    None
                }
            }
            &&& waits && told_pending(runtime) && runtime.pending_generation == Some(
                runtime.accepted_generation,
            ) && runtime.applied_generation > 0 && state == "blocked_recovery_required"@
                ==> told.required_action == NeutronStatusRequiredAction::RecoverPending
            &&& told.overall_readiness == NeutronStatusOverallReadiness::Ready <==> calm && settled(
                runtime,
            ) && runtime.applied_generation > 0 && state == "ready"@ && class
                == StatusV1EvidenceClass::Ready
            &&& told.overall_readiness == NeutronStatusOverallReadiness::Ready
                ==> told.required_action == NeutronStatusRequiredAction::NoAction
            &&& calm && settled(runtime) && runtime.applied_generation > 0 && (state == "ready"@
                || state == "runtime_degraded"@) && class == StatusV1EvidenceClass::TerminalDegraded
                ==> told.required_action == NeutronStatusRequiredAction::NoAction
                && told.overall_readiness == NeutronStatusOverallReadiness::Degraded
            &&& calm && settled(runtime) && runtime.applied_generation > 0 && (state == "ready"@
                || state == "runtime_degraded"@) && class == StatusV1EvidenceClass::FullResync
                ==> told.required_action == NeutronStatusRequiredAction::FullResync
                && told.overall_readiness == NeutronStatusOverallReadiness::Degraded
            &&& calm && settled(runtime) && runtime.applied_generation > 0 && class
                != StatusV1EvidenceClass::Blocked && (state
                == "runtime_reconcile_requires_full_resync"@ || state == "degraded"@)
                ==> told.required_action == NeutronStatusRequiredAction::FullResync
            &&& calm && settled(runtime) && !unused(runtime) && class
                != StatusV1EvidenceClass::Blocked && state
                == "recovered_pending_full_resync_required"@ ==> told.required_action
                == NeutronStatusRequiredAction::FullResync && told.transaction_state
                == NeutronStatusTransactionState::Recovery
            &&& told.required_action == NeutronStatusRequiredAction::NoAction ==> calm && settled(
                runtime,
            ) && (class == StatusV1EvidenceClass::Ready || class
                == StatusV1EvidenceClass::TerminalDegraded)
            &&& told.required_action == NeutronStatusRequiredAction::FullResync && !unused(runtime)
                ==> calm && settled(runtime) && class != StatusV1EvidenceClass::Blocked
            &&& told.required_action == NeutronStatusRequiredAction::Operator
                ==> told.overall_readiness == NeutronStatusOverallReadiness::Blocked
                && told.transaction_state == NeutronStatusTransactionState::Blocked
        }),
{
    lemma_states();
}

/// A snapshot that may be sent again as it is asks for just that, and changes nothing else that is
/// told.
pub proof fn retryable_snapshots_ask_to_be_sent_again(
    runtime: NeutronRuntimeStateModel,
    retryable: bool,
)
    ensures
        ({
            let told = retryable_projection(runtime, retryable);
            &&& !retryable ==> told == projection(runtime)
            &&& retryable ==> {
                &&& told.required_action == NeutronStatusRequiredAction::RetrySnapshot
                &&& told.overall_readiness == NeutronStatusOverallReadiness::Blocked
                &&& told.transaction_state == NeutronStatusTransactionState::Blocked
                &&& told.port_statuses == projection(runtime).port_statuses
                &&& told.last_classified_generation == runtime.applied_generation
            }
        }),
{
}

/// The report tells the runtime as it is: its generations, hashes, log and state, all its ports, and
/// the instances and counters that were handed over.
pub proof fn reports_tell_the_runtime(
    runtime: NeutronRuntimeStateModel,
    retryable: bool,
    active_instances: Seq<Seq<char>>,
    counters: Option<CountersModel>,
    k: Seq<char>,
)
    requires
        runtime.ports.dom().finite(),
    ensures
        ({
            let told = status_report(runtime, retryable, active_instances, counters);
            let projected = retryable_projection(runtime, retryable);
            &&& told.status_schema_version == 3
            &&& told.status_contract_hash == "v0.9-neutron-status-3"@
            &&& told.transaction_state == projected.transaction_state
            &&& told.overall_readiness == projected.overall_readiness
            &&& told.required_action == projected.required_action
            &&& told.recovery_cause == projected.recovery_cause
            &&& told.port_statuses == projected.port_statuses
            &&& told.last_classified_generation == runtime.applied_generation
            &&& told.generation == runtime.applied_generation
            &&& told.accepted_generation == runtime.accepted_generation
            &&& told.applied_generation == runtime.applied_generation
            &&& told.pending_generation == runtime.pending_generation
            &&& told.desired_hash == runtime.desired_hash
            &&& told.applied_desired_hash == runtime.applied_desired_hash
            &&& told.wal_status == runtime.wal_status
            &&& told.wal_replay_failures == runtime.wal_replay_failures
            &&& runtime.authority_state.len() > 0 ==> told.authority_state
                == runtime.authority_state
            &&& runtime.authority_state.len() == 0 ==> told.authority_state == "idle"@
            &&& told.active_instances == active_instances
            &&& told.counters == counters
            &&& runtime.ports.dom().contains(k) ==> told.managed_ports.contains(runtime.ports[k])
            &&& told.managed_ports.len() == runtime.ports.dom().len()
        }),
{
    let keys = in_order::<String>(runtime.ports.dom());
    lemma_in_order::<String>(runtime.ports.dom());
    let ports = values_in_order::<String, ManagedNeutronPortModel>(runtime.ports);
    if runtime.ports.dom().contains(k) {
        assert(keys.contains(k));
        let i = keys.index_of(k);
        assert(ports[i] == runtime.ports[k]);
    }
    assert(keys.no_duplicates()) by {
        assert forall|i: int, j: int|
            0 <= i < keys.len() && 0 <= j < keys.len() && i != j implies keys[i] != keys[j] by {
            crate::text::text_before_irreflexive(keys[i]);
            if i < j {
                assert(crate::text::text_before(keys[i], keys[j]));
            } else {
                assert(crate::text::text_before(keys[j], keys[i]));
            }
        }
    }
    keys.unique_seq_to_set();
    assert(keys.to_set() =~= runtime.ports.dom());
}

/// A block is worse than a call for a full resync, that is worse than a degradation for good, and
/// that is worse than being ready; of two the worse is kept.
pub proof fn classes_are_ordered(a: StatusV1EvidenceClass, b: StatusV1EvidenceClass)
    ensures
        StatusV1EvidenceClass::Ready.rank() < StatusV1EvidenceClass::TerminalDegraded.rank(),
        StatusV1EvidenceClass::TerminalDegraded.rank() < StatusV1EvidenceClass::FullResync.rank(),
        StatusV1EvidenceClass::FullResync.rank() < StatusV1EvidenceClass::Blocked.rank(),
        worse_class(a, b) == a || worse_class(a, b) == b,
        worse_class(a, b).rank() >= a.rank() && worse_class(a, b).rank() >= b.rank(),
{
}

/// True when what is recorded of a port and its status agree in every respect that is looked at.
pub open spec fn agrees(
    runtime: NeutronRuntimeStateModel,
    key: Seq<char>,
    managed: ManagedNeutronPortModel,
    status: NeutronPortStatusModel,
) -> bool {
    let domains = normal_domains(status.managed_domains);
    &&& key.len() > 0
    &&& managed.port_id == key
    &&& status.port_id == key
    &&& managed.ifname == status.ifname
    &&& managed.ifname.len() > 0
    &&& 0 < status.generation <= runtime.applied_generation
    &&& (status.desired_hash matches Some(hash) && trimmed(hash).len() > 0)
    &&& status.generation == runtime.applied_generation ==> status.desired_hash
        == runtime.applied_desired_hash
    &&& normal_domains(managed.managed_domains) == domains
    &&& managed.managed_domains.len() == domains.len()
    &&& status.managed_domains.len() == domains.len()
    &&& forall|i: int|
        0 <= i < status.domains.len() ==> trimmed(
            domain_name((#[trigger] status.domains[i]).domain),
        ).len() > 0
    &&& forall|i: int, j: int|
        0 <= i < j < status.domains.len() ==> domain_name((#[trigger] status.domains[i]).domain)
            != domain_name((#[trigger] status.domains[j]).domain)
    &&& forall|i: int|
        0 <= i < status.domains.len() ==> domain_name((#[trigger] status.domains[i]).domain)
            == "attach"@ || domains.contains(domain_name(status.domains[i].domain))
    &&& forall|d: Seq<char>| #[trigger]
        domains.contains(d) ==> exists|i: int|
            0 <= i < status.domains.len() && domain_name((#[trigger] status.domains[i]).domain)
                == d
}

/// A port whose record and status agree is reported.
pub proof fn agreeing_ports_are_reported(runtime: NeutronRuntimeStateModel, key: Seq<char>)
    requires
        runtime.ports.dom().contains(key),
        runtime.port_statuses.dom().contains(key),
        agrees(runtime, key, runtime.ports[key], runtime.port_statuses[key]),
    ensures
        row_at(runtime, key) is Some,
{
    let status = runtime.port_statuses[key];
    let managed = runtime.ports[key];
    let names = evidence_names(status.domains);
    let domains = normal_domains(status.managed_domains);
    assert forall|i: int| 0 <= i < names.len() implies trimmed(#[trigger] names[i]).len() > 0
        && names[i] == domain_name(status.domains[i].domain) by {
        lemma_trimmed_len(domain_name(status.domains[i].domain));
    }
    assert(names.no_duplicates()) by {
        assert forall|i: int, j: int|
            0 <= i < names.len() && 0 <= j < names.len() && i != j implies names[i] != names[j] by {
            assert(trimmed(names[i]).len() > 0 && trimmed(names[j]).len() > 0);
            if i < j {
                assert(domain_name(status.domains[i].domain) != domain_name(
                    status.domains[j].domain,
                ));
            } else {
                assert(domain_name(status.domains[j].domain) != domain_name(
                    status.domains[i].domain,
                ));
            }
        }
    }
    assert forall|i: int| 0 <= i < domains.len() implies names.contains(#[trigger] domains[i]) by {
        assert(domains.contains(domains[i]));
        let k = choose|k: int|
            0 <= k < status.domains.len() && domain_name((#[trigger] status.domains[k]).domain)
                == domains[i];
        assert(trimmed(names[k]).len() > 0);
        assert(names[k] == domains[i]);
    }
    assert forall|i: int| 0 <= i < names.len() implies #[trigger] names[i] == "attach"@
        || domains.contains(names[i]) by {
        assert(trimmed(names[i]).len() > 0);
        assert(domain_name(status.domains[i].domain) == names[i]);
    }
}

proof fn lemma_trimmed_len(s: Seq<char>)
    ensures
        trimmed(s).len() <= s.len(),
{
    crate::text_laws::trimming_cuts_white_space_alone(s);
    let (a, b) = choose|a: int, b: int|
        #![trigger s.subrange(a, b)]
        0 <= a <= b <= s.len() && trimmed(s) == s.subrange(a, b) && (forall|i: int|
            0 <= i < a || b <= i < s.len() ==> crate::text::white(#[trigger] s[i]));
}

/// A detached port is reported as such: it has a name and an identity of its own, is detached in
/// every domain that it was managed in, and is of a generation that is applied, with its hash.
pub proof fn detached_ports_are_reported(runtime: NeutronRuntimeStateModel, key: Seq<char>)
    requires
        !runtime.ports.dom().contains(key),
        runtime.port_statuses.dom().contains(key),
        ({
            let status = runtime.port_statuses[key];
            let domains = normal_domains(status.managed_domains);
            &&& key.len() > 0
            &&& status.port_id == key
            &&& status.ifname.len() > 0
            &&& status.status == "detached"@
            &&& 0 < status.generation <= runtime.applied_generation
            &&& (status.desired_hash matches Some(hash) && trimmed(hash).len() > 0)
            &&& status.generation == runtime.applied_generation ==> status.desired_hash
                == runtime.applied_desired_hash
            &&& status.managed_domains.len() == domains.len()
            &&& forall|i: int, j: int|
                0 <= i < j < status.domains.len() ==> domain_name(
                    (#[trigger] status.domains[i]).domain,
                ) != domain_name((#[trigger] status.domains[j]).domain)
            &&& forall|i: int|
                0 <= i < status.domains.len() ==> {
                    let state = #[trigger] status.domains[i];
                    &&& domain_name(state.domain).len() > 0
                    &&& domains.contains(domain_name(state.domain))
                    &&& state.status == "detached"@
                    &&& state.effective_action is None
                }
        }),
    ensures
        row_at(runtime, key) is Some,
{
    let status = runtime.port_statuses[key];
    let names = crate::status_v1::detached_names(status.domains);
    assert(names.no_duplicates()) by {
        assert forall|i: int, j: int|
            0 <= i < names.len() && 0 <= j < names.len() && i != j implies names[i] != names[j] by {
            if i < j {
                assert(domain_name(status.domains[i].domain) != domain_name(
                    status.domains[j].domain,
                ));
            } else {
                assert(domain_name(status.domains[j].domain) != domain_name(
                    status.domains[i].domain,
                ));
            }
        }
    }
}

/// The row of a managed port tells of the domains that it is managed in, each as its status says,
/// and of no other.
pub proof fn rows_tell_of_the_managed_domains(
    runtime: NeutronRuntimeStateModel,
    key: Seq<char>,
    i: int,
)
    requires
        runtime.ports.dom().contains(key),
        row_at(runtime, key) is Some,
    ensures
        ({
            let row = row_at(runtime, key)->0;
            let status = runtime.port_statuses[key];
            let managed = normal_domains(status.managed_domains);
            &&& 0 <= i < status.domains.len() && managed.contains(
                domain_evidence(status.domains[i]).domain,
            ) ==> row.domains.contains(domain_evidence(status.domains[i]))
            &&& 0 <= i < row.domains.len() ==> managed.contains(row.domains[i].domain) && exists|
                j: int,
            |
                0 <= j < status.domains.len() && domain_evidence(#[trigger] status.domains[j])
                    == row.domains[i]
        }),
{
    let row = row_at(runtime, key)->0;
    let status = runtime.port_statuses[key];
    let managed = normal_domains(status.managed_domains);
    let all = domains_evidence(status.domains);
    let p = |domain: DomainEvidenceModel| managed.contains(domain.domain);
    if 0 <= i < status.domains.len() && managed.contains(
        domain_evidence(status.domains[i]).domain,
    ) {
        assert(all[i] == domain_evidence(status.domains[i]));
        all.lemma_filter_contains(p, i);
    }
    if 0 <= i < row.domains.len() {
        all.lemma_filter_pred(p, i);
        assert(row.domains.contains(row.domains[i]));
        all.lemma_filter_contains_rev(p, row.domains[i]);
        let j = all.index_of(row.domains[i]);
        assert(domain_evidence(status.domains[j]) == row.domains[i]);
    }
}

/// Every port that can be reported is in the report, and nothing else is.
pub proof fn the_report_holds_every_row(
    runtime: NeutronRuntimeStateModel,
    key: Seq<char>,
    i: int,
)
    requires
        runtime.port_statuses.dom().finite(),
    ensures
        row_at(runtime, key) is Some ==> projection(runtime).port_statuses.contains(
            row_at(runtime, key)->0,
        ),
        0 <= i < projection(runtime).port_statuses.len() ==> exists|k: Seq<char>| #[trigger]
            runtime.port_statuses.dom().contains(k) && row_at(runtime, k) == Some(
                projection(runtime).port_statuses[i],
            ),
{
    let keys = in_order::<String>(runtime.port_statuses.dom());
    lemma_in_order::<String>(runtime.port_statuses.dom());
    let p = |k: Seq<char>| row_at(runtime, k) is Some;
    let f = |k: Seq<char>| row_at(runtime, k)->0;
    if row_at(runtime, key) is Some {
        assert(keys.contains(key));
        keys.lemma_filter_contains(p, keys.index_of(key));
        let j = keys.filter(p).index_of(key);
        assert(projection(runtime).port_statuses[j] == f(key));
    }
    if 0 <= i < projection(runtime).port_statuses.len() {
        let k = crate::plan_laws::lemma_chosen(keys, p, f, i);
        assert(runtime.port_statuses.dom().contains(k));
    }
}

/// A port without an interface is reported only where its rules are not supported and its traffic is
/// let through, and it is managed in nothing else.
pub proof fn ports_without_interface_are_unsupported(
    runtime: NeutronRuntimeStateModel,
    key: Seq<char>,
)
    requires
        row_at(runtime, key) is Some,
        runtime.ports.dom().contains(key),
        runtime.ports[key].ifname.len() == 0,
    ensures
        ({
            let status = runtime.port_statuses[key];
            &&& status.status == "degraded"@ || status.status == "unsupported"@
            &&& normal_domains(status.managed_domains) == seq!["acl"@]
            &&& status.domains.len() == 1
            &&& status.domains[0].status == "degraded"@ || status.domains[0].status
                == "unsupported"@
            &&& status.domains[0].effective_action == Some("bypass"@)
            &&& status.domains[0].status == "unsupported"@ || names_unsupported(
                status.domains[0].reason,
            )
        }),
{
    lemma_names();
    let status = runtime.port_statuses[key];
    let all = domains_evidence(status.domains);
    assert(all[0] == domain_evidence(status.domains[0]));
    evidence_says_what_the_status_says(status.domains[0]);
    lemma_resync_supported(status.domains[0].reason);
    assert(normal_domains(status.managed_domains) =~= seq!["acl"@]);
}

/// What is recorded of a port that is reported, and its status, name every domain once.
pub proof fn reported_ports_name_domains_once(runtime: NeutronRuntimeStateModel, key: Seq<char>)
    requires
        row_at(runtime, key) is Some,
    ensures
        ({
            let status = runtime.port_statuses[key];
            &&& status.managed_domains.len() == normal_domains(status.managed_domains).len()
            &&& forall|i: int, j: int|
                0 <= i < j < status.domains.len() ==> domain_evidence(
                    #[trigger] status.domains[i],
                ).domain != domain_evidence(#[trigger] status.domains[j]).domain || (
                domain_name(status.domains[i].domain) != domain_name(status.domains[j].domain))
            &&& runtime.ports.dom().contains(key) ==> runtime.ports[key].managed_domains.len()
                == normal_domains(status.managed_domains).len()
        }),
{
    let status = runtime.port_statuses[key];
    let names = evidence_names(status.domains);
    let detached = crate::status_v1::detached_names(status.domains);
    assert forall|i: int, j: int| 0 <= i < j < status.domains.len() implies domain_evidence(
        #[trigger] status.domains[i],
    ).domain != domain_evidence(#[trigger] status.domains[j]).domain || (domain_name(
        status.domains[i].domain,
    ) != domain_name(status.domains[j].domain)) by {
        if runtime.ports.dom().contains(key) {
            assert(names[i] != names[j]);
        } else {
            assert(detached[i] != detached[j]);
        }
    }
}

/// Before anything was ever applied, a pending snapshot is to be given up only where it waits for the
/// inventory, and nothing is managed or told of any port.
pub proof fn first_snapshots_are_given_up_only_untouched(runtime: NeutronRuntimeStateModel)
    requires
        runtime.applied_generation == 0,
    ensures
        projection(runtime).required_action == NeutronStatusRequiredAction::RecoverPending <==> {
            &&& runtime.wal_replay_failures == 0
            &&& runtime.recovery_cause == Some("inventory_unavailable"@)
            &&& told_pending(runtime)
            &&& runtime.pending_generation == Some(runtime.accepted_generation)
            &&& runtime.applied_desired_hash is None
            &&& runtime.authority_state == "blocked_recovery_required"@
            &&& runtime.ports =~= Map::<Seq<char>, ManagedNeutronPortModel>::empty()
            &&& runtime.port_statuses =~= Map::<Seq<char>, NeutronPortStatusModel>::empty()
        },
{
    lemma_states();
}

} // verus!
