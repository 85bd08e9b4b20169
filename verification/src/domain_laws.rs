//! What holds of the domains of a port, of their hashes, and of what is said of them.

use crate::acl_gate::ReconcileErrorModel;
use crate::domains::{
    acl_hash_payload, desired_hashes, domain_name, managed_port, normal_domains, plain_domain,
};
use crate::model::{NeutronDomainStatusModel, NeutronPortSnapshotModel};
use crate::ordered::ascending;
use crate::payload::{payload_hash, sha256_digest, EncodedPayloadModel};
use crate::port_laws::{
    asks_for_known_domains, asks_for_rules, lemma_known_domains, lemma_normal_domains,
    lemma_rules_after_naming,
};
use crate::reconcile::{domain_step, DomainStepModel};
use crate::status::{
    domain_with_status, first_with_status, reconciled_acl_state, reported_acl_state,
    runtime_domains, states_of, worst_state,
};
use crate::text::{hex, hex_char, lowered, trimmed};
use vstd::prelude::*;
use vstd::utf8::encode_utf8;

verus! {

/// True when a text is a name in lower case, without the white space around it, and with
/// underscores for dashes.
pub open spec fn spelled(name: Seq<char>, plain: Seq<char>) -> bool {
    let low = lowered(trimmed(name));
    &&& plain.len() == low.len()
    &&& forall|i: int|
        0 <= i < low.len() ==> #[trigger] plain[i] == if low[i] == '-' {
            '_'
        } else {
            low[i]
        }
}

/// A name stands for a domain by its spelling alone, or by another name of the domain: policies,
/// groups and address sets are rules.
pub proof fn names_stand_for_domains(name: Seq<char>, plain: Seq<char>)
    requires
        spelled(name, plain),
    ensures
        ({
            let rules = plain == "policy"@ || plain == "groups"@ || plain == "address_sets"@ || plain
                == "aria_acl"@;
            &&& rules ==> domain_name(name) == "acl"@
            &&& plain == "aria_qos"@ ==> domain_name(name) == "qos"@
            &&& plain == "aria_mirror"@ ==> domain_name(name) == "mirror"@
            &&& !rules && plain != "aria_qos"@ && plain != "aria_mirror"@ ==> domain_name(name)
                == plain
        }),
{
    assert(plain_domain(name) =~= plain);
    reveal_strlit("policy");
    reveal_strlit("groups");
    reveal_strlit("address_sets");
    reveal_strlit("aria_acl");
    reveal_strlit("aria_qos");
    reveal_strlit("aria_mirror");
    assert("aria_qos"@.len() == 8 && "aria_mirror"@.len() == 11 && "aria_acl"@.len() == 8);
    assert("policy"@.len() == 6 && "groups"@.len() == 6 && "address_sets"@.len() == 12);
    assert("aria_qos"@[5] == 'q' && "aria_acl"@[5] == 'a');
}

/// The domains of a port are those that its names stand for, each once and in order; a blank name
/// stands for none.
pub proof fn each_domain_is_listed_once(names: Seq<Seq<char>>, d: Seq<char>)
    ensures
        normal_domains(names).contains(d) <==> d.len() > 0 && exists|i: int|
            0 <= i < names.len() && domain_name(#[trigger] names[i]) == d,
        ascending::<String>(normal_domains(names)),
        runtime_domains(names).contains(d) <==> d == "attach"@ || normal_domains(names).contains(d),
{
    lemma_normal_domains(names);
    crate::domains::normal_domains_are_stable(names);
    crate::domains::lemma_domain_set_finite(names);
    crate::ordered::lemma_in_order::<String>(
        crate::domains::domain_set(names).insert("attach"@),
    );
}

/// What is recorded of a port is what the snapshot says of it, with a hash of its rules exactly where
/// it asks for rules.
pub proof fn records_carry_a_hash_for_rules(port: NeutronPortSnapshotModel)
    ensures
        ({
            let recorded = managed_port(port);
            &&& recorded.port_id == port.port_id
            &&& recorded.ifname == port.ifname
            &&& recorded.ifindex == port.ifindex
            &&& recorded.managed_domains == normal_domains(port.managed_domains)
            &&& recorded.domain_desired_hashes.dom().contains("acl"@) <==> asks_for_rules(port)
            &&& forall|d: Seq<char>| #[trigger]
                recorded.domain_desired_hashes.dom().contains(d) ==> d == "acl"@
        }),
{
    lemma_rules_after_naming(port);
}

proof fn lemma_hex_inverse(a: Seq<u8>, b: Seq<u8>)
    requires
        hex(a) == hex(b),
    ensures
        a == b,
    decreases a.len(),
{
    lemma_hex_len(a);
    lemma_hex_len(b);
    if a.len() > 0 {
        let s = hex(a);
        let n = s.len() as int;
        assert(s[n - 1] == hex_char((a.last() % 16) as nat));
        assert(s[n - 2] == hex_char((a.last() / 16) as nat));
        assert(s[n - 1] == hex_char((b.last() % 16) as nat));
        assert(s[n - 2] == hex_char((b.last() / 16) as nat));
        lemma_hex_char((a.last() % 16) as nat, (b.last() % 16) as nat);
        lemma_hex_char((a.last() / 16) as nat, (b.last() / 16) as nat);
        assert(a.last() == b.last());
        assert(hex(a.drop_last()) =~= s.take(n - 2));
        assert(hex(b.drop_last()) =~= s.take(n - 2));
        lemma_hex_inverse(a.drop_last(), b.drop_last());
        assert(a =~= a.drop_last().push(a.last()));
        assert(b =~= b.drop_last().push(b.last()));
    } else {
        assert(a =~= b);
    }
}

proof fn lemma_hex_char(d: nat, e: nat)
    requires
        d < 16,
        e < 16,
        hex_char(d) == hex_char(e),
    ensures
        d == e,
{
}

proof fn lemma_hex_len(bytes: Seq<u8>)
    ensures
        hex(bytes).len() == 2 * bytes.len(),
    decreases bytes.len(),
{
    if bytes.len() > 0 {
        lemma_hex_len(bytes.drop_last());
    }
}

proof fn lemma_same_hash(a: EncodedPayloadModel, b: EncodedPayloadModel)
    requires
        payload_hash(a) == payload_hash(b),
    ensures
        sha256_digest(crate::payload::hashed_bytes(a)) == sha256_digest(
            crate::payload::hashed_bytes(b),
        ),
{
    let x = sha256_digest(crate::payload::hashed_bytes(a));
    let y = sha256_digest(crate::payload::hashed_bytes(b));
    let head = "sha256:"@;
    assert((head + hex(x)).skip(head.len() as int) =~= hex(x));
    assert((head + hex(y)).skip(head.len() as int) =~= hex(y));
    lemma_hex_inverse(x, y);
}

/// Two different texts with one digest.
pub open spec fn collision(x: Seq<u8>, y: Seq<u8>) -> bool {
    x != y && sha256_digest(x) == sha256_digest(y)
}

/// Two encodings have one hash only where they are the same, or where the digest has a collision.
pub proof fn equal_hashes_mean_equal_encodings(x: Seq<u8>, y: Seq<u8>)
    requires
        payload_hash(EncodedPayloadModel::Json(x)) == payload_hash(EncodedPayloadModel::Json(y)),
    ensures
        x == y || collision(x, y),
{
    lemma_same_hash(EncodedPayloadModel::Json(x), EncodedPayloadModel::Json(y));
}

/// Two ports that ask for rules are recorded with one hash only where their rules are encoded alike,
/// or where the digest has a collision: a changed rule changes the hash.
pub proof fn changed_rules_change_the_hash(
    a: NeutronPortSnapshotModel,
    b: NeutronPortSnapshotModel,
    x: Seq<u8>,
    y: Seq<u8>,
)
    requires
        asks_for_rules(a),
        asks_for_rules(b),
        a.acl_payload == EncodedPayloadModel::Json(x),
        b.acl_payload == EncodedPayloadModel::Json(y),
        managed_port(a).domain_desired_hashes == managed_port(b).domain_desired_hashes,
    ensures
        x == y || exists|u: Seq<u8>, v: Seq<u8>| #[trigger] collision(u, v),
{
    lemma_rules_after_naming(a);
    lemma_rules_after_naming(b);
    let p = acl_hash_payload(a.acl_payload);
    let q = acl_hash_payload(b.acl_payload);
    assert(desired_hashes(a)["acl"@] == payload_hash(p));
    assert(desired_hashes(b)["acl"@] == payload_hash(q));
    lemma_same_hash(p, q);
    let head = encode_utf8("{\"schema\":\"neutron-acl-port-v1\",\"domain\":\"acl\",\"acl\":"@);
    let tail = encode_utf8("}"@);
    let u = head + x + tail;
    let v = head + y + tail;
    assert(p == EncodedPayloadModel::Json(u) && q == EncodedPayloadModel::Json(v));
    if u == v {
        assert(u.len() == head.len() + x.len() + tail.len());
        assert(v.len() == head.len() + y.len() + tail.len());
        assert(u.subrange(head.len() as int, (head.len() + x.len()) as int) =~= x);
        assert(v.subrange(head.len() as int, (head.len() + y.len()) as int) =~= y);
    } else {
        assert(collision(u, v));
    }
}

/// Rules that are encoded alike have one hash, whatever else differs between their ports.
pub proof fn unchanged_rules_keep_the_hash(
    a: NeutronPortSnapshotModel,
    b: NeutronPortSnapshotModel,
)
    requires
        asks_for_rules(a) == asks_for_rules(b),
        a.acl_payload == b.acl_payload,
    ensures
        managed_port(a).domain_desired_hashes == managed_port(b).domain_desired_hashes,
{
    lemma_rules_after_naming(a);
    lemma_rules_after_naming(b);
}

/// True when one of the domains has a status, whatever its case.
pub open spec fn any_in(domains: Seq<NeutronDomainStatusModel>, status: Seq<char>) -> bool {
    exists|i: int| 0 <= i < domains.len() && lowered((#[trigger] domains[i]).status) == status
}

proof fn lemma_low_words()
    ensures
        lowered("error"@) == "error"@,
        lowered("blocked"@) == "blocked"@,
        lowered("degraded"@) == "degraded"@,
        lowered("unsupported"@) == "unsupported"@,
        lowered("not_requested"@) == "not_requested"@,
        lowered("ready"@) == "ready"@,
        lowered("enforce"@) == "enforce"@,
{
    reveal_strlit("error");
    reveal_strlit("blocked");
    reveal_strlit("degraded");
    reveal_strlit("unsupported");
    reveal_strlit("not_requested");
    reveal_strlit("ready");
    reveal_strlit("enforce");
    assert(lowered("error"@) =~= "error"@);
    assert(lowered("blocked"@) =~= "blocked"@);
    assert(lowered("degraded"@) =~= "degraded"@);
    assert(lowered("unsupported"@) =~= "unsupported"@);
    assert(lowered("not_requested"@) =~= "not_requested"@);
    assert(lowered("ready"@) =~= "ready"@);
    assert(lowered("enforce"@) =~= "enforce"@);
}

proof fn lemma_with_status(domains: Seq<NeutronDomainStatusModel>, status: Seq<char>)
    ensures
        domain_with_status(domains, status) matches Some(d) ==> domains.contains(d) && lowered(
            d.status,
        ) == lowered(status),
        domain_with_status(domains, status) is None ==> forall|i: int|
            0 <= i < domains.len() ==> lowered((#[trigger] domains[i]).status) != lowered(status),
{
    let p = |i: int| lowered(domains[i].status) == lowered(status);
    crate::acl_overlap::lemma_first_from_found(domains.len() as int, 0, p);
    let i = first_with_status(domains, status);
    if i < domains.len() {
        assert(domains.contains(domains[i]));
    }
    if domain_with_status(domains, status) is None {
        assert forall|j: int| 0 <= j < domains.len() implies lowered(
            (#[trigger] domains[j]).status,
        ) != lowered(status) by {
            assert(!p(j));
        }
    }
}

/// What a port comes to is the worst that one of its domains came to: an error before a block, a
/// block before a degradation, that before a lack of support, and that before a domain that was not
/// requested; the status and the reason are those of such a domain. It is ready only where no domain
/// is any of these.
pub proof fn the_worst_domain_decides(domains: Seq<NeutronDomainStatusModel>)
    ensures
        ({
            let worst = worst_state(domains);
            let told = exists|i: int|
                0 <= i < domains.len() && (#[trigger] domains[i]).status == worst.0
                    && domains[i].reason == worst.1;
            let error = any_in(domains, "error"@);
            let blocked = any_in(domains, "blocked"@);
            let degraded = any_in(domains, "degraded"@);
            let unsupported = any_in(domains, "unsupported"@);
            let unrequested = any_in(domains, "not_requested"@);
            &&& error ==> lowered(worst.0) == "error"@ && told
            &&& !error && blocked ==> lowered(worst.0) == "blocked"@ && told
            &&& !error && !blocked && degraded ==> lowered(worst.0) == "degraded"@ && told
            &&& !error && !blocked && !degraded && unsupported ==> lowered(worst.0)
                == "unsupported"@ && told
            &&& !error && !blocked && !degraded && !unsupported && unrequested ==> lowered(worst.0)
                == "not_requested"@ && told
            &&& !error && !blocked && !degraded && !unsupported && !unrequested ==> worst.0
                == "ready"@ && worst.1 is None
        }),
{
    lemma_low_words();
    lemma_with_status(domains, "error"@);
    lemma_with_status(domains, "blocked"@);
    lemma_with_status(domains, "degraded"@);
    lemma_with_status(domains, "unsupported"@);
    lemma_with_status(domains, "not_requested"@);
    let worst = worst_state(domains);
    assert forall|d: NeutronDomainStatusModel| #[trigger]
        domains.contains(d) && d.status == worst.0 && d.reason == worst.1 implies exists|i: int|
        0 <= i < domains.len() && (#[trigger] domains[i]).status == worst.0 && domains[i].reason
            == worst.1 by {
        let i = domains.index_of(d);
        assert(domains[i].status == worst.0);
    }
}

/// What is said of the rules of a port is what its ACL says: its status, or ready where it gives
/// none; its reason, where that says more than ready; and what becomes of the traffic: what the ACL
/// names, or else that it is filtered exactly where the ACL is switched on and ready.
pub proof fn rules_are_told_as_the_acl_says(port: NeutronPortSnapshotModel)
    ensures
        ({
            let told = reported_acl_state(port);
            &&& told.domain == "acl"@
            &&& port.acl is None ==> told.status == "ready"@ && told.reason is None
                && told.effective_action is None
            &&& port.acl matches Some(acl) ==> {
                &&& trimmed(acl.status).len() > 0 ==> told.status == trimmed(acl.status)
                &&& trimmed(acl.status).len() == 0 ==> told.status == "ready"@
                &&& trimmed(acl.reason).len() == 0 || lowered(acl.reason) == "ready"@ ==> told.reason
                    is None
                &&& trimmed(acl.reason).len() > 0 && lowered(acl.reason) != "ready"@ ==> told.reason
                    == Some(acl.reason)
                &&& trimmed(acl.effective_action).len() > 0 ==> told.effective_action == Some(
                    acl.effective_action,
                )
                &&& trimmed(acl.effective_action).len() == 0 && acl.enabled && lowered(told.status)
                    == "ready"@ ==> told.effective_action == Some("enforce"@)
                &&& trimmed(acl.effective_action).len() == 0 && !(acl.enabled && lowered(
                    told.status,
                ) == "ready"@) ==> told.effective_action == Some("bypass"@)
            }
        }),
{
    lemma_low_words();
}

/// Rules that were set aside are told as such: degraded, for the reason they were set aside for, and
/// with the traffic let through.
pub proof fn rules_set_aside_are_told(bypass: Option<Seq<char>>, port: NeutronPortSnapshotModel)
    ensures
        ({
            let told = reconciled_acl_state(bypass, port);
            &&& bypass is Some ==> told.domain == "acl"@ && told.status == "degraded"@ && told.reason
                == bypass && told.effective_action == Some("bypass"@)
            &&& bypass is None ==> told == reported_acl_state(port)
        }),
{
}

/// Bringing the domains of a port about asks for its rules exactly where it asks for them and for
/// nothing that nobody can bring about; it succeeds exactly where that is so and the rules, if there
/// are any, were brought about. Every domain of the port is told of, and no other.
pub proof fn domains_are_brought_about_together(
    port: NeutronPortSnapshotModel,
    acl: Option<Result<Option<Seq<char>>, ReconcileErrorModel>>,
)
    ensures
        ({
            let step = domain_step(port, acl);
            let known = asks_for_known_domains(port);
            let names = normal_domains(port.managed_domains);
            &&& step is ReconcileAcl <==> known && asks_for_rules(port) && acl is None
            &&& step matches DomainStepModel::Finish(result) ==> {
                &&& result.domains.len() == names.len()
                &&& forall|i: int|
                    0 <= i < names.len() ==> (#[trigger] result.domains[i]).domain == names[i]
                &&& result.ok <==> known && (asks_for_rules(port) ==> acl is Some && acl->0 is Ok)
                &&& result.ok ==> result.reason is None
                &&& !result.ok ==> result.reason is Some
                &&& known && asks_for_rules(port) && acl is Some && acl->0 is Err ==> result.reason
                    == Some("acl_apply_failed:"@ + acl->0->Err_0.details)
            }
        }),
{
    lemma_known_domains(port);
    lemma_rules_after_naming(port);
    lemma_normal_domains(port.managed_domains);
    let names = normal_domains(port.managed_domains);
    if names.len() == 0 && asks_for_rules(port) {
        reveal_strlit("acl");
        assert("acl"@.len() == 3);
        assert(names.contains("acl"@));
    }
    if crate::reconcile::unimplemented(port.managed_domains).len() > 0 {
        let p = |domain: Seq<char>| !crate::domains::implemented(domain);
        names.lemma_filter_len(p);
    }
    if asks_for_known_domains(port) {
        assert forall|i: int| 0 <= i < names.len() implies #[trigger] names[i] == "attach"@
            || names[i] == "acl"@ by {
            assert(names.contains(names[i]));
        }
    }
}

/// Each domain is told as it was left: attachment is ready; rules are as their change came out, in
/// error and with what it left of the traffic where it failed; and where the port asks for what
/// nobody can bring about, its rules are blocked and the rest is in error.
pub proof fn domains_are_told_as_they_were_left(
    port: NeutronPortSnapshotModel,
    acl: Option<Result<Option<Seq<char>>, ReconcileErrorModel>>,
    i: int,
)
    requires
        domain_step(port, acl) is Finish,
        0 <= i < domain_step(port, acl)->Finish_0.domains.len(),
    ensures
        ({
            let state = domain_step(port, acl)->Finish_0.domains[i];
            let known = asks_for_known_domains(port);
            &&& state.domain == "attach"@ ==> state.status == "ready"@ && state.reason is None
                && state.effective_action is None
            &&& state.domain == "acl"@ && known ==> {
                &&& acl is Some
                &&& acl->0 matches Ok(bypass) ==> state == reconciled_acl_state(bypass, port)
                &&& acl->0 matches Err(error) ==> state.status == "error"@ && state.reason == Some(
                    "acl_apply_failed:"@ + error.details,
                ) && state.effective_action == Some(error.effective_action)
            }
            &&& !known && state.domain == "acl"@ ==> state.status == "blocked"@
            &&& !known && state.domain != "acl"@ && state.domain != "attach"@ ==> state.status
                == "error"@ && state.reason == Some(state.domain + "_transaction_not_implemented"@)
            &&& known ==> state.domain == "attach"@ || state.domain == "acl"@
        }),
{
    lemma_known_domains(port);
    lemma_rules_after_naming(port);
    lemma_normal_domains(port.managed_domains);
    reveal_strlit("acl");
    reveal_strlit("attach");
    assert("acl"@.len() == 3 && "attach"@.len() == 6);
    let names = normal_domains(port.managed_domains);
    let states = domain_step(port, acl)->Finish_0.domains;
    if names.len() > 0 {
        assert(names.contains(names[i]));
    }
}

/// A status for several domains gives each of them that status and that reason.
pub proof fn statuses_are_given_to_each_domain(
    names: Seq<Seq<char>>,
    status: Seq<char>,
    reason: Option<Seq<char>>,
    i: int,
)
    requires
        0 <= i < names.len(),
    ensures
        ({
            let states = states_of(names, status, reason);
            &&& states.len() == names.len()
            &&& states[i].domain == names[i]
            &&& states[i].status == status
            &&& states[i].reason == reason
            &&& states[i].effective_action is None
        }),
{
}

} // verus!
