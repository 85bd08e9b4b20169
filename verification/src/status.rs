//! The states of ports and their domains, and the answers built from them.

use crate::acl_plan::AclApplyPlan;
use crate::acl_rules::first_from;
use crate::domains::{
    collect_domains, domain_set, normal_domains, normalize_managed_domains, ordered_texts,
};
use crate::model::{
    NeutronDomainStatus, NeutronDomainStatusModel, NeutronPortApplyResult,
    NeutronPortApplyResultModel, NeutronPortSnapshot, NeutronPortSnapshotModel, NeutronPortStatus,
    NeutronPortStatusModel, NeutronSnapshotResponse, NeutronSnapshotResponseModel,
};
use crate::ordered::{in_order, OrderedMap, Value};
use crate::text::{lowered, text_eq_ignore_case, trim, trimmed};
use vstd::prelude::*;
use vstd::string::*;

verus! {

/// The state of one domain.
pub open spec fn domain_state(
    domain: Seq<char>,
    status: Seq<char>,
    reason: Option<Seq<char>>,
    effective_action: Option<Seq<char>>,
) -> NeutronDomainStatusModel {
    NeutronDomainStatusModel { domain, status, reason, effective_action }
}

/// Makes the state of one domain without an effective action.
pub fn domain_status(domain: &str, status: &str, reason: Option<String>) -> (r: NeutronDomainStatus)
    ensures
        r.deep_view() == domain_state(domain@, status@, reason.deep_view(), None),
{
    domain_status_with_action(domain, status, reason, None)
}

/// Makes the state of one domain.
pub fn domain_status_with_action(
    domain: &str,
    status: &str,
    reason: Option<String>,
    effective_action: Option<String>,
) -> (r: NeutronDomainStatus)
    ensures
        r.deep_view() == domain_state(
            domain@,
            status@,
            reason.deep_view(),
            effective_action.deep_view(),
        ),
{
    NeutronDomainStatus {
        domain: domain.to_owned(),
        status: status.to_owned(),
        reason,
        effective_action,
    }
}

/// The state of a port.
pub open spec fn port_state(
    port_id: Seq<char>,
    ifname: Seq<char>,
    generation: u64,
    desired_hash: Option<Seq<char>>,
    managed_domains: Seq<Seq<char>>,
    status: Seq<char>,
    reason: Option<Seq<char>>,
    domains: Seq<NeutronDomainStatusModel>,
) -> NeutronPortStatusModel {
    NeutronPortStatusModel {
        port_id,
        ifname,
        generation,
        desired_hash,
        status,
        reason,
        managed_domains,
        domains,
    }
}

/// Makes the state of a port.
pub fn port_runtime_status(
    port_id: &str,
    ifname: &str,
    generation: u64,
    desired_hash: Option<String>,
    managed_domains: Vec<String>,
    status: &str,
    reason: Option<String>,
    domains: Vec<NeutronDomainStatus>,
) -> (r: NeutronPortStatus)
    ensures
        r.deep_view() == port_state(
            port_id@,
            ifname@,
            generation,
            desired_hash.deep_view(),
            managed_domains.deep_view(),
            status@,
            reason.deep_view(),
            domains.deep_view(),
        ),
{
    NeutronPortStatus {
        port_id: port_id.to_owned(),
        ifname: ifname.to_owned(),
        generation,
        desired_hash,
        status: status.to_owned(),
        reason,
        managed_domains,
        domains,
    }
}

/// What became of one port.
pub open spec fn port_result(
    port_id: Seq<char>,
    ifname: Seq<char>,
    action: Seq<char>,
    status: Seq<char>,
    reason: Option<Seq<char>>,
) -> NeutronPortApplyResultModel {
    NeutronPortApplyResultModel { port_id, ifname, action, status, reason }
}

/// Says what became of one port.
pub fn transaction_result(
    port_id: &str,
    ifname: &str,
    action: &str,
    status: &str,
    reason: Option<&str>,
) -> (r: NeutronPortApplyResult)
    ensures
        r.deep_view() == port_result(port_id@, ifname@, action@, status@, reason.deep_view()),
{
    NeutronPortApplyResult {
        port_id: port_id.to_owned(),
        ifname: ifname.to_owned(),
        action: action.to_owned(),
        status: status.to_owned(),
        reason: match reason {
            Some(text) => Some(text.to_owned()),
            None => None,
        },
    }
}

/// Answers a snapshot.
pub fn neutron_snapshot_response(
    generation: u64,
    desired_hash: Option<String>,
    accepted_generation: u64,
    applied_generation: u64,
    status: &str,
    results: Vec<NeutronPortApplyResult>,
    active_instances: Vec<String>,
) -> (r: NeutronSnapshotResponse)
    ensures
        r.deep_view() == (NeutronSnapshotResponseModel {
            generation,
            desired_hash: desired_hash.deep_view(),
            accepted_generation,
            applied_generation,
            status: status@,
            results: results.deep_view(),
            active_instances: active_instances.deep_view(),
        }),
{
    NeutronSnapshotResponse {
        generation,
        desired_hash,
        accepted_generation,
        applied_generation,
        status: status.to_owned(),
        results,
        active_instances,
    }
}

/// Whether two optional hashes are the same.
pub fn hashes_match(left: &Option<String>, right: &Option<String>) -> (r: bool)
    ensures
        r == (left.deep_view() == right.deep_view()),
{
    left.same(right)
}

/// The state of the ACL domain as the snapshot of a port reports it.
pub open spec fn reported_acl_state(port: NeutronPortSnapshotModel) -> NeutronDomainStatusModel {
    match port.acl {
        None => domain_state("acl"@, "ready"@, None, None),
        Some(acl) => {
            let status = if trimmed(acl.status).len() == 0 {
                "ready"@
            } else {
                trimmed(acl.status)
            };
            let reason = if trimmed(acl.reason).len() == 0 || lowered(acl.reason) == lowered(
                "ready"@,
            ) {
                None
            } else {
                Some(acl.reason)
            };
            let action = if trimmed(acl.effective_action).len() > 0 {
                acl.effective_action
            } else if acl.enabled && lowered(status) == lowered("ready"@) {
                "enforce"@
            } else {
                "bypass"@
            };
            domain_state("acl"@, status, reason, Some(action))
        },
    }
}

/// Gives the state of the ACL domain as the snapshot of a port reports it.
pub fn acl_domain_status_for(port: &NeutronPortSnapshot) -> (r: NeutronDomainStatus)
    ensures
        r.deep_view() == reported_acl_state(port.deep_view()),
{
    let acl = match &port.acl {
        Some(acl) => acl,
        None => {
            return domain_status("acl", "ready", None);
        },
    };
    let stated = trim(acl.status.as_str());
    let status = if stated.is_empty() {
        "ready"
    } else {
        stated
    };
    let reason = if trim(acl.reason.as_str()).is_empty() || text_eq_ignore_case(
        acl.reason.as_str(),
        "ready",
    ) {
        None
    } else {
        Some(acl.reason.duplicate())
    };
    let action = if !trim(acl.effective_action.as_str()).is_empty() {
        acl.effective_action.duplicate()
    } else if acl.enabled && text_eq_ignore_case(status, "ready") {
        "enforce".to_owned()
    } else {
        "bypass".to_owned()
    };
    domain_status_with_action("acl", status, reason, Some(action))
}

/// What reconciling the ACL of a port came to.
#[derive(Debug, PartialEq, Eq)]
pub struct NeutronAclReconcileOutcome {
    pub force_bypass_reason: Option<String>,
}

/// The state of the ACL domain after a reconcile that left traffic alone for a
/// reason, or for none.
pub open spec fn reconciled_acl_state(
    bypass: Option<Seq<char>>,
    port: NeutronPortSnapshotModel,
) -> NeutronDomainStatusModel {
    match bypass {
        Some(reason) => domain_state("acl"@, "degraded"@, Some(reason), Some("bypass"@)),
        None => reported_acl_state(port),
    }
}

impl NeutronAclReconcileOutcome {
    /// The outcome of carrying out a plan.
    pub fn from_plan(plan: &AclApplyPlan) -> (r: NeutronAclReconcileOutcome)
        ensures
            r.force_bypass_reason.deep_view() == plan.deep_view().force_bypass_reason,
    {
        NeutronAclReconcileOutcome { force_bypass_reason: plan.force_bypass_reason.duplicate() }
    }

    /// The state of the ACL domain after the reconcile.
    pub fn domain_status(&self, port: &NeutronPortSnapshot) -> (r: NeutronDomainStatus)
        ensures
            r.deep_view() == reconciled_acl_state(
                self.force_bypass_reason.deep_view(),
                port.deep_view(),
            ),
    {
        match &self.force_bypass_reason {
            Some(reason) => domain_status_with_action(
                "acl",
                "degraded",
                Some(reason.duplicate()),
                Some("bypass".to_owned()),
            ),
            None => acl_domain_status_for(port),
        }
    }
}

/// The index of the first domain with a status, or the number of domains.
pub open spec fn first_with_status(
    domains: Seq<NeutronDomainStatusModel>,
    status: Seq<char>,
) -> int {
    first_from(
        domains.len() as int,
        0,
        |i: int| lowered(domains[i].status) == lowered(status),
    )
}

/// The first domain with a status.
pub open spec fn domain_with_status(
    domains: Seq<NeutronDomainStatusModel>,
    status: Seq<char>,
) -> Option<NeutronDomainStatusModel> {
    let i = first_with_status(domains, status);
    if i < domains.len() {
        Some(domains[i])
    } else {
        None
    }
}

/// The status and reason of a port, taken from its worst domain.
pub open spec fn worst_state(domains: Seq<NeutronDomainStatusModel>) -> (
    Seq<char>,
    Option<Seq<char>>,
) {
    match domain_with_status(domains, "error"@) {
        Some(d) => (d.status, d.reason),
        None => match domain_with_status(domains, "blocked"@) {
            Some(d) => (d.status, d.reason),
            None => match domain_with_status(domains, "degraded"@) {
                Some(d) => (d.status, d.reason),
                None => match domain_with_status(domains, "unsupported"@) {
                    Some(d) => (d.status, d.reason),
                    None => match domain_with_status(domains, "not_requested"@) {
                        Some(d) => (d.status, d.reason),
                        None => ("ready"@, None),
                    },
                },
            },
        },
    }
}

fn find_status<'a>(domains: &'a [NeutronDomainStatus], status: &str) -> (r: Option<
    &'a NeutronDomainStatus,
>)
    ensures
        match r {
            Some(d) => domain_with_status(domains.deep_view(), status@) == Some(d.deep_view()),
            None => domain_with_status(domains.deep_view(), status@) is None,
        },
{
    let ghost models = domains.deep_view();
    let ghost p = |i: int| lowered(models[i].status) == lowered(status@);
    let mut i: usize = 0;
    while i < domains.len()
        invariant
            i <= domains.len(),
            models == domains.deep_view(),
            p == (|i: int| lowered(models[i].status) == lowered(status@)),
            first_with_status(models, status@) == first_from(models.len() as int, i as int, p),
        decreases domains.len() - i,
    {
        assert(models[i as int] == domains@[i as int].deep_view());
        if text_eq_ignore_case(domains[i].status.as_str(), status) {
            assert(p(i as int));
            return Some(&domains[i]);
        }
        assert(!p(i as int));
        i += 1;
    }
    None
}

/// Takes the status and reason of a port from its worst domain.
pub fn successful_port_status(domains: &[NeutronDomainStatus]) -> (r: (String, Option<String>))
    ensures
        (r.0@, r.1.deep_view()) == worst_state(domains.deep_view()),
{
    if let Some(d) = find_status(domains, "error") {
        return (d.status.duplicate(), d.reason.duplicate());
    }
    if let Some(d) = find_status(domains, "blocked") {
        return (d.status.duplicate(), d.reason.duplicate());
    }
    if let Some(d) = find_status(domains, "degraded") {
        return (d.status.duplicate(), d.reason.duplicate());
    }
    if let Some(d) = find_status(domains, "unsupported") {
        return (d.status.duplicate(), d.reason.duplicate());
    }
    if let Some(d) = find_status(domains, "not_requested") {
        return (d.status.duplicate(), d.reason.duplicate());
    }
    ("ready".to_owned(), None)
}

/// The same state for each of a list of domains.
pub open spec fn states_of(
    domains: Seq<Seq<char>>,
    status: Seq<char>,
    reason: Option<Seq<char>>,
) -> Seq<NeutronDomainStatusModel> {
    domains.map_values(|d: Seq<char>| domain_state(d, status, reason, None))
}

/// Makes the same state for each of a list of domains.
pub fn statuses_for(domains: &Vec<String>, status: &str, reason: &Option<String>) -> (r: Vec<
    NeutronDomainStatus,
>)
    ensures
        r.deep_view() == states_of(domains.deep_view(), status@, reason.deep_view()),
{
    let ghost wanted = states_of(domains.deep_view(), status@, reason.deep_view());
    let mut r: Vec<NeutronDomainStatus> = Vec::new();
    let mut i: usize = 0;
    while i < domains.len()
        invariant
            i <= domains.len(),
            wanted == states_of(domains.deep_view(), status@, reason.deep_view()),
            r.deep_view() == wanted.take(i as int),
        decreases domains.len() - i,
    {
        let ghost before = r.deep_view();
        let state = domain_status(domains[i].as_str(), status, reason.duplicate());
        r.push(state);
        assert(r.deep_view() =~= before.push(state.deep_view()));
        assert(domains.deep_view()[i as int] == domains@[i as int]@);
        assert(wanted.take(i + 1) =~= wanted.take(i as int).push(wanted[i as int]));
        i += 1;
    }
    assert(wanted.take(i as int) =~= wanted);
    r
}

/// Makes the same state for each managed domain.
pub fn domain_statuses_for(managed_domains: &Vec<String>, status: &str, reason: Option<String>) -> (r:
    Vec<NeutronDomainStatus>)
    ensures
        r.deep_view() == states_of(
            normal_domains(managed_domains.deep_view()),
            status@,
            reason.deep_view(),
        ),
{
    let domains = normalize_managed_domains(managed_domains);
    statuses_for(&domains, status, &reason)
}

/// The managed domains together with the attachment.
pub open spec fn runtime_domains(managed_domains: Seq<Seq<char>>) -> Seq<Seq<char>> {
    in_order::<String>(domain_set(managed_domains).insert("attach"@))
}

/// Makes the same state for the attachment and each managed domain.
pub fn runtime_domain_statuses_for(
    managed_domains: &Vec<String>,
    status: &str,
    reason: Option<String>,
) -> (r: Vec<NeutronDomainStatus>)
    ensures
        r.deep_view() == states_of(
            runtime_domains(managed_domains.deep_view()),
            status@,
            reason.deep_view(),
        ),
{
    let mut set: OrderedMap<String, bool> = OrderedMap::new();
    set.insert("attach".to_owned(), true);
    collect_domains(&mut set, managed_domains);
    assert(set.deep_view().dom() =~= domain_set(managed_domains.deep_view()).insert("attach"@));
    let domains = ordered_texts(&set);
    statuses_for(&domains, status, &reason)
}

} // verus!
