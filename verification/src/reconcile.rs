//! Bringing the domains of a port about.

use crate::acl_gate::{NeutronAclReconcileError, ReconcileErrorModel};
use crate::domains::{
    implemented, manages_acl, normal_domains, normalize_managed_domains, port_manages_acl,
    unsupported_neutron_managed_domains,
};
use crate::model::{
    NeutronDomainStatus, NeutronDomainStatusModel, NeutronPortSnapshot, NeutronPortSnapshotModel,
};
use crate::ordered::Value;
use crate::status::{
    domain_state, domain_status, domain_status_with_action, reconciled_acl_state,
    NeutronAclReconcileOutcome,
};
use crate::text::{join, joined, text_eq};
use vstd::prelude::*;
use vstd::string::*;

verus! {

/// What bringing the domains of a port about came to.
#[derive(Debug, PartialEq, Eq)]
pub struct DomainReconcileResult {
    pub domains: Vec<NeutronDomainStatus>,
    pub ok: bool,
    pub reason: Option<String>,
}

/// The model of [`DomainReconcileResult`].
#[verifier::ext_equal]
pub struct DomainResultModel {
    pub domains: Seq<NeutronDomainStatusModel>,
    pub ok: bool,
    pub reason: Option<Seq<char>>,
}

impl DeepView for DomainReconcileResult {
    type V = DomainResultModel;

    open spec fn deep_view(&self) -> DomainResultModel {
        DomainResultModel {
            domains: self.domains.deep_view(),
            ok: self.ok,
            reason: self.reason.deep_view(),
        }
    }
}

impl Value for DomainReconcileResult {
    fn duplicate(&self) -> (r: Self) {
        DomainReconcileResult {
            domains: self.domains.duplicate(),
            ok: self.ok,
            reason: self.reason.duplicate(),
        }
    }

    fn same(&self, other: &Self) -> (r: bool) {
        self.domains.same(&other.domains)
            && self.ok == other.ok
            && self.reason.same(&other.reason)
    }
}

impl Clone for DomainReconcileResult {
    fn clone(&self) -> (r: Self)
        ensures
            r.deep_view() == self.deep_view(),
    {
        self.duplicate()
    }
}

/// The domains that a port asks for and that are not implemented.
pub open spec fn unimplemented(names: Seq<Seq<char>>) -> Seq<Seq<char>> {
    normal_domains(names).filter(|domain: Seq<char>| !implemented(domain))
}

/// Why a port is not touched when some of its domains are not implemented.
pub open spec fn unimplemented_text(domains: Seq<Seq<char>>) -> Seq<char> {
    "blocked_by_unimplemented_domains:"@ + joined(domains, ","@)
}

/// Says why a port is not touched when some of its domains are not implemented.
pub fn blocked_by_unimplemented_domains(domains: &Vec<String>) -> (r: String)
    ensures
        r@ == unimplemented_text(domains.deep_view()),
{
    let mut r = "blocked_by_unimplemented_domains:".to_owned();
    r.append(join(domains, ",").as_str());
    r
}

/// Says that a domain is not implemented.
pub fn unimplemented_domain_reason(domain: &str) -> (r: String)
    ensures
        r@ == domain@ + "_transaction_not_implemented"@,
{
    let mut r = domain.to_owned();
    r.append("_transaction_not_implemented");
    r
}

/// The state of a domain of a port that has domains that are not implemented.
pub open spec fn untouched_state(domain: Seq<char>, reason: Seq<char>) -> NeutronDomainStatusModel {
    if domain == "attach"@ {
        domain_state(domain, "ready"@, None, None)
    } else if domain == "acl"@ {
        domain_state(domain, "blocked"@, Some(reason), None)
    } else {
        domain_state(
            domain,
            "error"@,
            Some(domain + "_transaction_not_implemented"@),
            None,
        )
    }
}

/// Why filtering could not be brought about.
pub open spec fn acl_apply_failure(error: ReconcileErrorModel) -> Seq<char> {
    "acl_apply_failed:"@ + error.details
}

/// The state of an implemented domain: the attachment, or filtering by what came of it.
pub open spec fn implemented_state(
    port: NeutronPortSnapshotModel,
    domain: Seq<char>,
    acl: Result<Option<Seq<char>>, ReconcileErrorModel>,
) -> NeutronDomainStatusModel {
    if domain == "attach"@ {
        domain_state(domain, "ready"@, None, None)
    } else {
        match acl {
            Ok(bypass) => reconciled_acl_state(bypass, port),
            Err(error) => domain_state(
                domain,
                "error"@,
                Some(acl_apply_failure(error)),
                Some(error.effective_action),
            ),
        }
    }
}

/// What bringing the domains of a port about has to do next.
pub enum DomainReconcileStep {
    /// Bring filtering about.
    ReconcileAcl,
    /// All is done, or why it is not.
    Finish(DomainReconcileResult),
}

/// The model of [`DomainReconcileStep`].
pub enum DomainStepModel {
    ReconcileAcl,
    Finish(DomainResultModel),
}

impl DeepView for DomainReconcileStep {
    type V = DomainStepModel;

    open spec fn deep_view(&self) -> DomainStepModel {
        match self {
            DomainReconcileStep::ReconcileAcl => DomainStepModel::ReconcileAcl,
            DomainReconcileStep::Finish(result) => DomainStepModel::Finish(result.deep_view()),
        }
    }
}

/// The model of what came of filtering: why traffic is let through, if it is, or the failure.
pub open spec fn acl_result(
    acl: Option<Result<NeutronAclReconcileOutcome, NeutronAclReconcileError>>,
) -> Option<Result<Option<Seq<char>>, ReconcileErrorModel>> {
    match acl {
        None => None,
        Some(Ok(outcome)) => Some(Ok(outcome.force_bypass_reason.deep_view())),
        Some(Err(error)) => Some(Err(error.deep_view())),
    }
}

/// What bringing the domains of a port about has to do next, given what came of filtering.
pub open spec fn domain_step(
    port: NeutronPortSnapshotModel,
    acl: Option<Result<Option<Seq<char>>, ReconcileErrorModel>>,
) -> DomainStepModel {
    let domains = normal_domains(port.managed_domains);
    let missing = unimplemented(port.managed_domains);
    if domains.len() == 0 {
        DomainStepModel::Finish(
            DomainResultModel { domains: Seq::empty(), ok: true, reason: None },
        )
    } else if missing.len() > 0 {
        DomainStepModel::Finish(
            DomainResultModel {
                domains: domains.map_values(
                    |domain: Seq<char>| untouched_state(domain, unimplemented_text(missing)),
                ),
                ok: false,
                reason: Some(unimplemented_text(missing)),
            },
        )
    } else if !manages_acl(port.managed_domains) {
        DomainStepModel::Finish(
            DomainResultModel {
                domains: domains.map_values(
                    |domain: Seq<char>| implemented_state(port, domain, Ok(None)),
                ),
                ok: true,
                reason: None,
            },
        )
    } else {
        match acl {
            None => DomainStepModel::ReconcileAcl,
            Some(result) => DomainStepModel::Finish(
                DomainResultModel {
                    domains: domains.map_values(
                        |domain: Seq<char>| implemented_state(port, domain, result),
                    ),
                    ok: result is Ok,
                    reason: match result {
                        Ok(_) => None,
                        Err(error) => Some(acl_apply_failure(error)),
                    },
                },
            ),
        }
    }
}

fn untouched_states(domains: &Vec<String>, reason: &String) -> (r: Vec<NeutronDomainStatus>)
    ensures
        r.deep_view() == domains.deep_view().map_values(
            |domain: Seq<char>| untouched_state(domain, reason@),
        ),
{
    let ghost models = domains.deep_view();
    let ghost wanted = models.map_values(|domain: Seq<char>| untouched_state(domain, reason@));
    let mut r: Vec<NeutronDomainStatus> = Vec::new();
    let mut i: usize = 0;
    assert(r.deep_view() =~= wanted.take(0));
    while i < domains.len()
        invariant
            i <= domains.len(),
            models == domains.deep_view(),
            wanted == models.map_values(|domain: Seq<char>| untouched_state(domain, reason@)),
            r.deep_view() == wanted.take(i as int),
        decreases domains.len() - i,
    {
        assert(models[i as int] == domains@[i as int]@);
        let domain = domains[i].as_str();
        let state = if text_eq(domain, "attach") {
            domain_status(domain, "ready", None)
        } else if text_eq(domain, "acl") {
            domain_status(domain, "blocked", Some(reason.duplicate()))
        } else {
            domain_status(domain, "error", Some(unimplemented_domain_reason(domain)))
        };
        let ghost before = r.deep_view();
        let ghost pushed = state.deep_view();
        r.push(state);
        assert(pushed == wanted[i as int]);
        assert(r.deep_view() =~= before.push(pushed));
        assert(wanted.take(i + 1) =~= wanted.take(i as int).push(wanted[i as int]));
        i += 1;
    }
    assert(wanted.take(i as int) =~= wanted);
    r
}

fn implemented_states(
    port: &NeutronPortSnapshot,
    domains: &Vec<String>,
    acl: &Result<NeutronAclReconcileOutcome, NeutronAclReconcileError>,
) -> (r: Vec<NeutronDomainStatus>)
    ensures
        r.deep_view() == domains.deep_view().map_values(
            |domain: Seq<char>|
                implemented_state(port.deep_view(), domain, acl_result(Some(*acl))->0),
        ),
{
    let ghost models = domains.deep_view();
    let ghost result = acl_result(Some(*acl))->0;
    let ghost wanted = models.map_values(
        |domain: Seq<char>| implemented_state(port.deep_view(), domain, result),
    );
    let mut r: Vec<NeutronDomainStatus> = Vec::new();
    let mut i: usize = 0;
    assert(r.deep_view() =~= wanted.take(0));
    while i < domains.len()
        invariant
            i <= domains.len(),
            models == domains.deep_view(),
            result == acl_result(Some(*acl))->0,
            wanted == models.map_values(
                |domain: Seq<char>| implemented_state(port.deep_view(), domain, result),
            ),
            r.deep_view() == wanted.take(i as int),
        decreases domains.len() - i,
    {
        assert(models[i as int] == domains@[i as int]@);
        let domain = domains[i].as_str();
        let state = if text_eq(domain, "attach") {
            domain_status(domain, "ready", None)
        } else {
            match acl {
                Ok(outcome) => outcome.domain_status(port),
                Err(error) => {
                    let mut reason = "acl_apply_failed:".to_owned();
                    reason.append(error.details.as_str());
                    domain_status_with_action(
                        domain,
                        "error",
                        Some(reason),
                        Some(error.effective_action.to_owned()),
                    )
                },
            }
        };
        let ghost before = r.deep_view();
        let ghost pushed = state.deep_view();
        r.push(state);
        assert(pushed == wanted[i as int]);
        assert(r.deep_view() =~= before.push(pushed));
        assert(wanted.take(i + 1) =~= wanted.take(i as int).push(wanted[i as int]));
        i += 1;
    }
    assert(wanted.take(i as int) =~= wanted);
    r
}

/// Tells what bringing the domains of a port about has to do next.
pub fn reconcile_neutron_domains(
    port: &NeutronPortSnapshot,
    acl: &Option<Result<NeutronAclReconcileOutcome, NeutronAclReconcileError>>,
) -> (r: DomainReconcileStep)
    ensures
        r.deep_view() == domain_step(port.deep_view(), acl_result(*acl)),
{
    let domains = normalize_managed_domains(&port.managed_domains);
    assert(domains.deep_view().len() == domains.len());
    if domains.len() == 0 {
        let none: Vec<NeutronDomainStatus> = Vec::new();
        assert(none.deep_view() =~= Seq::<NeutronDomainStatusModel>::empty());
        return DomainReconcileStep::Finish(
            DomainReconcileResult { domains: none, ok: true, reason: None },
        );
    }
    let missing = unsupported_neutron_managed_domains(&port.managed_domains);
    assert(missing.deep_view().len() == missing.len());
    if missing.len() > 0 {
        let reason = blocked_by_unimplemented_domains(&missing);
        return DomainReconcileStep::Finish(
            DomainReconcileResult {
                domains: untouched_states(&domains, &reason),
                ok: false,
                reason: Some(reason),
            },
        );
    }
    if !port_manages_acl(port) {
        let nothing = Ok(NeutronAclReconcileOutcome { force_bypass_reason: None });
        return DomainReconcileStep::Finish(
            DomainReconcileResult {
                domains: implemented_states(port, &domains, &nothing),
                ok: true,
                reason: None,
            },
        );
    }
    match acl {
        None => DomainReconcileStep::ReconcileAcl,
        Some(result) => DomainReconcileStep::Finish(
            DomainReconcileResult {
                domains: implemented_states(port, &domains, result),
                ok: result.is_ok(),
                reason: match result {
                    Ok(_) => None,
                    Err(error) => {
                        let mut reason = "acl_apply_failed:".to_owned();
                        reason.append(error.details.as_str());
                        Some(reason)
                    },
                },
            },
        ),
    }
}

} // verus!
