//! The domains of a port that the agent may manage: how they are named, which
//! ones it implements, and which ones a change touches.

use crate::model::{
    ManagedNeutronPort, ManagedNeutronPortModel, NeutronPortSnapshot, NeutronPortSnapshotModel,
    PendingNeutronIntent, PendingNeutronIntentModel,
};
use crate::ordered::{ascending, in_order, OrderedMap, Value};
use crate::payload::{
    frame_payload, framed_payload, payload_hash, stable_json_hash, EncodedPayloadModel,
};
use crate::text::{
    from_chars, lowered, lowered_char, text_eq, to_chars, trim, trimmed, trimmed_end, trimmed_start,
    white,
};
use vstd::prelude::*;
use vstd::string::*;

verus! {

/// How the agent publishes the ACL state of a managed interface.
#[derive(Clone, Copy, Debug, PartialEq, Eq, Structural)]
pub enum ManagedAclPublicationMode {
    ManagedAcl,
    NeutronAttachOwnedStandaloneAcl,
    StandaloneCompatibility,
}

impl DeepView for ManagedAclPublicationMode {
    type V = ManagedAclPublicationMode;

    open spec fn deep_view(&self) -> ManagedAclPublicationMode {
        *self
    }
}

impl Value for ManagedAclPublicationMode {
    fn duplicate(&self) -> (r: Self) {
        *self
    }

    fn same(&self, other: &Self) -> (r: bool) {
        *self == *other
    }
}

/// A domain name in lower case with underscores.
pub open spec fn plain_domain(name: Seq<char>) -> Seq<char> {
    lowered(trimmed(name)).map_values(|c: char| if c == '-' { '_' } else { c })
}

/// The domain that a plain name stands for.
pub open spec fn domain_alias(plain: Seq<char>) -> Seq<char> {
    if plain == "policy"@ || plain == "groups"@ || plain == "address_sets"@ || plain
        == "aria_acl"@ {
        "acl"@
    } else if plain == "aria_qos"@ {
        "qos"@
    } else if plain == "aria_mirror"@ {
        "mirror"@
    } else {
        plain
    }
}

/// The domain that a name stands for; a blank name stands for none.
pub open spec fn domain_name(name: Seq<char>) -> Seq<char> {
    domain_alias(plain_domain(name))
}

/// The domains that names stand for.
pub open spec fn domain_set(names: Seq<Seq<char>>) -> Set<Seq<char>> {
    Set::new(
        |d: Seq<char>|
            d.len() > 0 && exists|i: int|
                0 <= i < names.len() && domain_name(#[trigger] names[i]) == d,
    )
}

/// The domains that names stand for, in order.
pub open spec fn normal_domains(names: Seq<Seq<char>>) -> Seq<Seq<char>> {
    in_order::<String>(domain_set(names))
}

fn plain_name(name: &str) -> (r: String)
    ensures
        r@ == plain_domain(name@),
{
    let lower = trim(name).to_ascii_lowercase();
    let chars = to_chars(lower.as_str());
    let ghost wanted = plain_domain(name@);
    let mut plain: Vec<char> = Vec::new();
    let mut i: usize = 0;
    while i < chars.len()
        invariant
            i <= chars.len(),
            chars@ == lower@,
            lower@ == lowered(trimmed(name@)),
            wanted == plain_domain(name@),
            plain@ == wanted.take(i as int),
        decreases chars.len() - i,
    {
        plain.push(
            if chars[i] == '-' {
                '_'
            } else {
                chars[i]
            },
        );
        assert(wanted.take(i + 1) =~= wanted.take(i as int).push(wanted[i as int]));
        i += 1;
    }
    assert(wanted.take(i as int) =~= wanted);
    from_chars(&plain)
}

/// Finds the domain that a name stands for.
pub fn name_domain(name: &str) -> (r: String)
    ensures
        r@ == domain_name(name@),
{
    let plain = plain_name(name);
    let p = plain.as_str();
    if text_eq(p, "policy") || text_eq(p, "groups") || text_eq(p, "address_sets") || text_eq(
        p,
        "aria_acl",
    ) {
        "acl".to_owned()
    } else if text_eq(p, "aria_qos") {
        "qos".to_owned()
    } else if text_eq(p, "aria_mirror") {
        "mirror".to_owned()
    } else {
        plain
    }
}

/// Adds the domains of names to a set.
pub fn collect_domains(set: &mut OrderedMap<String, bool>, names: &Vec<String>)
    ensures
        final(set).deep_view().dom() == old(set).deep_view().dom().union(
            domain_set(names.deep_view()),
        ),
{
    let ghost models = names.deep_view();
    let ghost start = set.deep_view().dom();
    let mut i: usize = 0;
    assert(domain_set(models.take(0)) =~= Set::empty());
    assert(start =~= start.union(domain_set(models.take(0))));
    while i < names.len()
        invariant
            i <= names.len(),
            models == names.deep_view(),
            set.deep_view().dom() == start.union(domain_set(models.take(i as int))),
        decreases names.len() - i,
    {
        assert(models[i as int] == names@[i as int]@);
        let domain = name_domain(names[i].as_str());
        let ghost before = set.deep_view().dom();
        proof {
            lemma_domain_set_push(models, i as int);
        }
        if !domain.as_str().is_empty() {
            set.insert(domain, true);
        }
        assert(set.deep_view().dom() =~= start.union(domain_set(models.take(i + 1))));
        i += 1;
    }
    assert(models.take(i as int) =~= models);
}

proof fn lemma_domain_set_push(names: Seq<Seq<char>>, i: int)
    requires
        0 <= i < names.len(),
    ensures
        forall|d: Seq<char>| #[trigger]
            domain_set(names.take(i + 1)).contains(d) <==> (domain_set(names.take(i)).contains(d)
                || (d.len() > 0 && d == domain_name(names[i]))),
{
    let part = names.take(i);
    let next = names.take(i + 1);
    assert forall|d: Seq<char>| #[trigger]
        domain_set(next).contains(d) <==> (domain_set(part).contains(d) || (d.len() > 0 && d
            == domain_name(names[i]))) by {
        assert(next[i] == names[i]);
        if domain_set(part).contains(d) {
            let k = choose|k: int| 0 <= k < part.len() && domain_name(#[trigger] part[k]) == d;
            assert(next[k] == part[k]);
        }
        if domain_set(next).contains(d) {
            let k = choose|k: int| 0 <= k < next.len() && domain_name(#[trigger] next[k]) == d;
            if k < i {
                assert(part[k] == next[k]);
            }
        }
    }
}

/// The members of a set of texts in order.
pub fn ordered_texts(set: &OrderedMap<String, bool>) -> (r: Vec<String>)
    ensures
        r.deep_view() == in_order::<String>(set.deep_view().dom()),
{
    let ghost keys = in_order::<String>(set.deep_view().dom());
    let n: usize = set.len();
    let mut r: Vec<String> = Vec::new();
    let mut i: usize = 0;
    while i < n
        invariant
            i <= n,
            n == keys.len(),
            keys == in_order::<String>(set.deep_view().dom()),
            r.deep_view() == keys.take(i as int),
        decreases n - i,
    {
        let ghost before = r.deep_view();
        let key = set.key_at(i).duplicate();
        r.push(key);
        assert(r.deep_view() =~= before.push(key.deep_view()));
        assert(keys.take(i + 1) =~= keys.take(i as int).push(keys[i as int]));
        i += 1;
    }
    assert(keys.take(i as int) =~= keys);
    r
}

/// Brings domain names into normal form: each domain once, in order.
pub fn normalize_managed_domains(domains: &Vec<String>) -> (r: Vec<String>)
    ensures
        r.deep_view() == normal_domains(domains.deep_view()),
        forall|d: Seq<char>| #[trigger]
            r.deep_view().contains(d) <==> domain_set(domains.deep_view()).contains(d),
{
    let mut set: OrderedMap<String, bool> = OrderedMap::new();
    collect_domains(&mut set, domains);
    assert(set.deep_view().dom() =~= domain_set(domains.deep_view()));
    let n: usize = set.len();
    ordered_texts(&set)
}

/// The domains that the agent implements.
pub fn implemented_neutron_domains() -> (r: [&'static str; 2])
    ensures
        r@[0]@ == "attach"@,
        r@[1]@ == "acl"@,
{
    ["attach", "acl"]
}

/// True for a domain that the agent implements.
pub open spec fn implemented(domain: Seq<char>) -> bool {
    domain == "attach"@ || domain == "acl"@
}

/// Whether the agent implements a domain.
pub fn is_implemented(domain: &str) -> (r: bool)
    ensures
        r == implemented(domain@),
{
    let known = implemented_neutron_domains();
    text_eq(domain, known[0]) || text_eq(domain, known[1])
}

/// Lists the named domains that the agent does not implement, in order.
pub fn unsupported_neutron_managed_domains(domains: &Vec<String>) -> (r: Vec<String>)
    ensures
        r.deep_view() == normal_domains(domains.deep_view()).filter(
            |d: Seq<char>| !implemented(d),
        ),
{
    let normal = normalize_managed_domains(domains);
    let ghost models = normal.deep_view();
    let ghost p = |d: Seq<char>| !implemented(d);
    let mut r: Vec<String> = Vec::new();
    let mut i: usize = 0;
    assert(models.take(0).filter(p) =~= Seq::empty());
    while i < normal.len()
        invariant
            i <= normal.len(),
            models == normal.deep_view(),
            p == (|d: Seq<char>| !implemented(d)),
            r.deep_view() == models.take(i as int).filter(p),
        decreases normal.len() - i,
    {
        let ghost before = r.deep_view();
        proof {
            assert(models[i as int] == normal@[i as int]@);
            assert(models.take(i + 1).drop_last() =~= models.take(i as int));
            reveal_with_fuel(Seq::filter, 2);
        }
        if !is_implemented(normal[i].as_str()) {
            r.push(normal[i].duplicate());
            assert(r.deep_view() =~= before.push(models[i as int]));
        }
        i += 1;
    }
    assert(models.take(i as int) =~= models);
    r
}

/// True when a port is to have its ACL managed.
pub open spec fn manages_acl(names: Seq<Seq<char>>) -> bool {
    domain_set(names).contains("acl"@)
}

/// Whether domain names say that the ACL is managed.
pub fn domains_manage_acl(domains: &Vec<String>) -> (r: bool)
    ensures
        r == manages_acl(domains.deep_view()),
{
    let normal = normalize_managed_domains(domains);
    let ghost models = normal.deep_view();
    let mut i: usize = 0;
    while i < normal.len()
        invariant
            i <= normal.len(),
            models == normal.deep_view(),
            forall|d: Seq<char>| #[trigger]
                models.contains(d) <==> domain_set(domains.deep_view()).contains(d),
            forall|k: int| 0 <= k < i ==> #[trigger] models[k] != "acl"@,
        decreases normal.len() - i,
    {
        assert(models[i as int] == normal@[i as int]@);
        if text_eq(normal[i].as_str(), "acl") {
            assert(models.contains("acl"@));
            return true;
        }
        i += 1;
    }
    assert(!models.contains("acl"@));
    false
}

/// Whether a port is to have its ACL managed.
pub fn port_manages_acl(port: &NeutronPortSnapshot) -> (r: bool)
    ensures
        r == manages_acl(port.deep_view().managed_domains),
{
    domains_manage_acl(&port.managed_domains)
}

/// Gives the publication mode that a managed port needs.
pub fn required_neutron_publication_mode(manages_acl: bool) -> (r: ManagedAclPublicationMode)
    ensures
        r == if manages_acl {
            ManagedAclPublicationMode::ManagedAcl
        } else {
            ManagedAclPublicationMode::NeutronAttachOwnedStandaloneAcl
        },
{
    if manages_acl {
        ManagedAclPublicationMode::ManagedAcl
    } else {
        ManagedAclPublicationMode::NeutronAttachOwnedStandaloneAcl
    }
}

/// What is hashed of the wanted ACL state of a port: a JSON object that names its schema and its
/// domain.
pub open spec fn acl_hash_payload(acl: EncodedPayloadModel) -> EncodedPayloadModel {
    framed_payload(
        "{\"schema\":\"neutron-acl-port-v1\",\"domain\":\"acl\",\"acl\":"@,
        acl,
        "}"@,
    )
}

/// The hashes of the wanted state of the managed domains of a port.
pub open spec fn desired_hashes(port: NeutronPortSnapshotModel) -> Map<Seq<char>, Seq<char>> {
    if manages_acl(port.managed_domains) {
        Map::empty().insert("acl"@, payload_hash(acl_hash_payload(port.acl_payload)))
    } else {
        Map::empty()
    }
}

/// Hashes the wanted state of the managed domains of a port.
pub fn domain_desired_hashes_from_snapshot(port: &NeutronPortSnapshot) -> (r: OrderedMap<
    String,
    String,
>)
    ensures
        r.deep_view() == desired_hashes(port.deep_view()),
{
    let mut hashes: OrderedMap<String, String> = OrderedMap::new();
    if port_manages_acl(port) {
        let payload = frame_payload(
            "{\"schema\":\"neutron-acl-port-v1\",\"domain\":\"acl\",\"acl\":",
            &port.acl_payload,
            "}",
        );
        hashes.insert("acl".to_owned(), stable_json_hash(&payload));
    }
    hashes
}

/// A port of a snapshot as a managed port.
pub open spec fn managed_port(port: NeutronPortSnapshotModel) -> ManagedNeutronPortModel {
    ManagedNeutronPortModel {
        port_id: port.port_id,
        ifname: port.ifname,
        ifindex: port.ifindex,
        managed_domains: normal_domains(port.managed_domains),
        domain_desired_hashes: desired_hashes(port),
    }
}

/// Makes a managed port of a port of a snapshot.
pub fn managed_port_from_snapshot(port: &NeutronPortSnapshot) -> (r: ManagedNeutronPort)
    ensures
        r.deep_view() == managed_port(port.deep_view()),
{
    ManagedNeutronPort {
        port_id: port.port_id.duplicate(),
        ifname: port.ifname.duplicate(),
        ifindex: port.ifindex,
        managed_domains: normalize_managed_domains(&port.managed_domains),
        domain_desired_hashes: domain_desired_hashes_from_snapshot(port),
    }
}

/// The domains that the ports below `n` name.
pub open spec fn port_domains(ports: Seq<ManagedNeutronPortModel>, n: int) -> Set<Seq<char>>
    decreases n,
{
    if n <= 0 {
        Set::empty()
    } else {
        port_domains(ports, n - 1).union(domain_set(ports[n - 1].managed_domains))
    }
}

/// The domains that a change of ports touches: theirs, and the attachment itself.
pub open spec fn affected_domains(ports: Seq<ManagedNeutronPortModel>) -> Seq<Seq<char>> {
    in_order::<String>(
        if ports.len() == 0 {
            Set::empty()
        } else {
            port_domains(ports, ports.len() as int).insert("attach"@)
        },
    )
}

/// Lists the domains that a change of ports touches.
pub fn affected_domains_for_ports(ports: &Vec<ManagedNeutronPort>) -> (r: Vec<String>)
    ensures
        r.deep_view() == affected_domains(ports.deep_view()),
{
    let ghost models = ports.deep_view();
    let mut set: OrderedMap<String, bool> = OrderedMap::new();
    if ports.len() > 0 {
        set.insert("attach".to_owned(), true);
    }
    let ghost start = set.deep_view().dom();
    let mut i: usize = 0;
    assert(start =~= start.union(port_domains(models, 0)));
    while i < ports.len()
        invariant
            i <= ports.len(),
            models == ports.deep_view(),
            set.deep_view().dom() == start.union(port_domains(models, i as int)),
        decreases ports.len() - i,
    {
        assert(models[i as int] == ports@[i as int].deep_view());
        collect_domains(&mut set, &ports[i].managed_domains);
        assert(set.deep_view().dom() =~= start.union(port_domains(models, i + 1)));
        i += 1;
    }
    assert(set.deep_view().dom() =~= if models.len() == 0 {
        Set::empty()
    } else {
        port_domains(models, models.len() as int).insert("attach"@)
    });
    ordered_texts(&set)
}

/// The domains that recovery of a port has to bring back.
pub open spec fn recovery_domains(
    intent: PendingNeutronIntentModel,
    port: ManagedNeutronPortModel,
) -> Seq<Seq<char>> {
    let named = domain_set(port.managed_domains).union(domain_set(intent.affected_domains));
    in_order::<String>(
        if port.ifname.len() > 0 {
            named.insert("attach"@)
        } else {
            named
        },
    )
}

/// Lists the domains that recovery of a port has to bring back.
pub fn recovery_domains_for_port(intent: &PendingNeutronIntent, port: &ManagedNeutronPort) -> (r:
    Vec<String>)
    ensures
        r.deep_view() == recovery_domains(intent.deep_view(), port.deep_view()),
{
    let mut set: OrderedMap<String, bool> = OrderedMap::new();
    if !port.ifname.as_str().is_empty() {
        set.insert("attach".to_owned(), true);
    }
    collect_domains(&mut set, &port.managed_domains);
    collect_domains(&mut set, &intent.affected_domains);
    proof {
        let named = domain_set(port.managed_domains.deep_view()).union(
            domain_set(intent.affected_domains.deep_view()),
        );
        assert(set.deep_view().dom() =~= if port.ifname@.len() > 0 {
            named.insert("attach"@)
        } else {
            named
        });
    }
    ordered_texts(&set)
}

proof fn lemma_trimmed_ends(s: Seq<char>)
    ensures
        trimmed(s).len() > 0 ==> !white(trimmed(s)[0]) && !white(trimmed(s).last()),
{
    lemma_trimmed_start(s);
    lemma_trimmed_end(trimmed_start(s));
}

proof fn lemma_trimmed_start(s: Seq<char>)
    ensures
        trimmed_start(s).len() > 0 ==> !white(trimmed_start(s)[0]),
    decreases s.len(),
{
    if s.len() > 0 && white(s[0]) {
        lemma_trimmed_start(s.drop_first());
    }
}

proof fn lemma_trimmed_end(s: Seq<char>)
    ensures
        trimmed_end(s).len() > 0 ==> !white(trimmed_end(s).last()) && trimmed_end(s)[0] == s[0],
    decreases s.len(),
{
    if s.len() > 0 && white(s.last()) {
        lemma_trimmed_end(s.drop_last());
    }
}

proof fn lemma_plain_idempotent(name: Seq<char>)
    ensures
        plain_domain(plain_domain(name)) == plain_domain(name),
{
    let t = trimmed(name);
    let p = plain_domain(name);
    lemma_trimmed_ends(name);
    assert forall|i: int| 0 <= i < p.len() implies lowered_char(#[trigger] p[i]) == p[i] && p[i]
        != '-' && (white(p[i]) ==> white(t[i])) by {
        assert(p[i] == (if lowered_char(t[i]) == '-' {
            '_'
        } else {
            lowered_char(t[i])
        }));
    }
    if p.len() > 0 {
        assert(!white(p[0]));
        assert(!white(p.last())) by {
            assert(white(p[p.len() - 1]) ==> white(t[p.len() - 1]));
        }
    }
    assert(trimmed(p) == p);
    assert(lowered(p) =~= p);
    assert(plain_domain(p) =~= p);
}

/// Naming a domain by its normal name changes nothing.
pub proof fn domain_name_is_stable(name: Seq<char>)
    ensures
        domain_name(domain_name(name)) == domain_name(name),
{
    let p = plain_domain(name);
    lemma_plain_idempotent(name);
    reveal_strlit("acl");
    reveal_strlit("qos");
    reveal_strlit("mirror");
    reveal_strlit("policy");
    reveal_strlit("groups");
    reveal_strlit("address_sets");
    reveal_strlit("aria_acl");
    reveal_strlit("aria_qos");
    reveal_strlit("aria_mirror");
    if domain_alias(p) != p {
        assert(plain_domain("acl"@) == "acl"@) by {
            lemma_plain_letters("acl"@);
        }
        assert(plain_domain("qos"@) == "qos"@) by {
            lemma_plain_letters("qos"@);
        }
        assert(plain_domain("mirror"@) == "mirror"@) by {
            lemma_plain_letters("mirror"@);
        }
        assert("acl"@.len() == 3 && "qos"@.len() == 3 && "mirror"@.len() == 6);
        assert("mirror"@[0] == 'm' && "policy"@[0] == 'p' && "groups"@[0] == 'g');
        assert("policy"@.len() == 6 && "groups"@.len() == 6 && "address_sets"@.len() == 12
            && "aria_acl"@.len() == 8 && "aria_qos"@.len() == 8 && "aria_mirror"@.len() == 11);
    }
}

proof fn lemma_plain_letters(s: Seq<char>)
    requires
        s.len() > 0,
        forall|i: int| 0 <= i < s.len() ==> 'a' <= #[trigger] s[i] && s[i] <= 'z',
    ensures
        plain_domain(s) == s,
{
    assert(!white(s[0]));
    assert(!white(s.last()));
    assert(trimmed(s) == s);
    assert(lowered(s) =~= s);
    assert(plain_domain(s) =~= s);
}

/// A set of domains is finite.
pub proof fn lemma_domain_set_finite(names: Seq<Seq<char>>)
    ensures
        domain_set(names).finite(),
    decreases names.len(),
{
    let all = names.map_values(|n: Seq<char>| domain_name(n));
    assert(domain_set(names).subset_of(all.to_set())) by {
        assert forall|d: Seq<char>| domain_set(names).contains(d) implies all.to_set().contains(
            d,
        ) by {
            let k = choose|k: int| 0 <= k < names.len() && domain_name(#[trigger] names[k]) == d;
            assert(all[k] == d);
        }
    }
    vstd::seq_lib::seq_to_set_is_finite(all);
    vstd::set_lib::lemma_set_subset_finite(all.to_set(), domain_set(names));
}

/// Bringing normal domain names into normal form changes nothing.
pub proof fn normal_domains_are_stable(names: Seq<Seq<char>>)
    ensures
        normal_domains(normal_domains(names)) == normal_domains(names),
        ascending::<String>(normal_domains(names)),
{
    let normal = normal_domains(names);
    lemma_domain_set_finite(names);
    crate::ordered::lemma_in_order::<String>(domain_set(names));
    assert forall|d: Seq<char>| #[trigger] domain_set(normal).contains(d) <==> domain_set(
        names,
    ).contains(d) by {
        if domain_set(names).contains(d) {
            assert(normal.contains(d));
            let i = normal.index_of(d);
            let k = choose|k: int| 0 <= k < names.len() && domain_name(#[trigger] names[k]) == d;
            domain_name_is_stable(names[k]);
            assert(domain_name(normal[i]) == d);
        }
        if domain_set(normal).contains(d) {
            let i = choose|i: int|
                0 <= i < normal.len() && domain_name(#[trigger] normal[i]) == d;
            assert(normal.contains(normal[i]));
            let k = choose|k: int|
                0 <= k < names.len() && domain_name(#[trigger] names[k]) == normal[i];
            domain_name_is_stable(names[k]);
        }
    }
    assert(domain_set(normal) =~= domain_set(names));
}

} // verus!
