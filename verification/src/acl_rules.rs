//! ACL rules: from the texts of a snapshot to parsed values.

use crate::acl_cidr::{cidr_value, invalid_cidr, AclIpv4Cidr, CidrModel};
use crate::acl_ports::{parse_acl_port_ranges, ranges_value};
use crate::acl_selector::{CanonicalAclRule, CanonicalAclRuleModel};
use crate::model::{NeutronAclRuleSnapshot, NeutronAclRuleSnapshotModel, NeutronAclSnapshot};
use crate::ordered::{in_order, OrderedMap};
use crate::text::{
    contains_char, decimal, from_chars, lowered, text_eq, text_eq_ignore_case, to_chars, trim,
    trimmed, u64_text, usize_text,
};
use vstd::prelude::*;
use vstd::string::*;

verus! {

/// The most rules that one policy may have.
pub const MAX_ACL_RULES_PER_POLICY: usize = 1000;

/// The most networks that one side of a rule may have.
pub const MAX_ACL_SELECTOR_MEMBERS: usize = 2048;

/// The least index from `i` on at which a property holds, or `n` if there is none below `n`.
pub open spec fn first_from(n: int, i: int, p: spec_fn(int) -> bool) -> int
    decreases n - i,
{
    if i >= n {
        n
    } else if p(i) {
        i
    } else {
        first_from(n, i + 1, p)
    }
}

/// The start of the names that belong to one port.
pub open spec fn acl_prefix(port_id: Seq<char>) -> Seq<char> {
    "neutron:"@ + port_id + ":"@
}

/// The start of the names that belong to one port.
pub fn neutron_acl_prefix(port_id: &str) -> (r: String)
    ensures
        r@ == acl_prefix(port_id@),
{
    let mut r = "neutron:".to_owned();
    r.append(port_id);
    r.append(":");
    r
}

/// True for the characters that a rule name keeps.
pub open spec fn name_char(c: char) -> bool {
    ('0' <= c && c <= '9') || ('A' <= c && c <= 'Z') || ('a' <= c && c <= 'z') || c == '-' || c
        == '_' || c == '.'
}

/// The name of a rule: its id with other characters replaced, or its number.
pub open spec fn rule_name(id: Option<Seq<char>>, index: nat) -> Seq<char> {
    match id {
        Some(text) if trimmed(text).len() > 0 => text.map_values(
            |c: char| if name_char(c) { c } else { '_' },
        ),
        _ => "rule"@ + decimal(index),
    }
}

/// Names a rule.
pub fn acl_rule_id(rule: &NeutronAclRuleSnapshot, index: usize) -> (r: String)
    ensures
        r@ == rule_name(rule.id.deep_view(), index as nat),
{
    if let Some(id) = &rule.id {
        if !trim(id.as_str()).is_empty() {
            let chars = to_chars(id.as_str());
            let mut kept: Vec<char> = Vec::new();
            let ghost wanted = id@.map_values(|c: char| if name_char(c) { c } else { '_' });
            let mut i: usize = 0;
            while i < chars.len()
                invariant
                    i <= chars.len(),
                    chars@ == id@,
                    wanted == id@.map_values(|c: char| if name_char(c) { c } else { '_' }),
                    kept@ == wanted.take(i as int),
                decreases chars.len() - i,
            {
                let c = chars[i];
                let keep = ('0' <= c && c <= '9') || ('A' <= c && c <= 'Z') || ('a' <= c && c
                    <= 'z') || c == '-' || c == '_' || c == '.';
                kept.push(if keep { c } else { '_' });
                assert(wanted.take(i + 1) =~= wanted.take(i as int).push(wanted[i as int]));
                i += 1;
            }
            assert(wanted.take(i as int) =~= wanted);
            return from_chars(&kept);
        }
    }
    let mut r = "rule".to_owned();
    r.append(usize_text(index).as_str());
    r
}

/// The default action in normal form; a blank one allows.
pub open spec fn default_action_value(action: Seq<char>) -> Seq<char> {
    let normal = lowered(trimmed(action));
    if normal.len() == 0 {
        "allow"@
    } else {
        normal
    }
}

/// Brings a default action into normal form.
pub fn normalize_default_action(action: &str) -> (r: String)
    ensures
        r@ == default_action_value(action@),
{
    let normalized = trim(action).to_ascii_lowercase();
    if normalized.as_str().is_empty() {
        "allow".to_owned()
    } else {
        normalized
    }
}

/// The datapath hooks for a direction that is seen from the port.
pub open spec fn datapath_directions(direction: u8) -> Seq<u8> {
    if direction == 0 {
        seq![1u8]
    } else if direction == 1 {
        seq![0u8]
    } else if direction == 2 {
        seq![1u8, 0u8]
    } else {
        seq![direction]
    }
}

/// Gives the datapath hooks for a direction that is seen from the port:
/// traffic that enters the machine leaves the host through its tap.
pub fn neutron_acl_to_datapath_directions(direction: u8) -> (r: Vec<u8>)
    ensures
        r@ == datapath_directions(direction),
{
    let mut r: Vec<u8> = Vec::new();
    if direction == 0 {
        r.push(1);
    } else if direction == 1 {
        r.push(0);
    } else if direction == 2 {
        r.push(1);
        r.push(0);
    } else {
        r.push(direction);
    }
    assert(r@ =~= datapath_directions(direction));
    r
}

/// The name of a direction.
pub open spec fn direction_name(direction: u8) -> Seq<char> {
    if direction == 0 {
        "ingress"@
    } else if direction == 1 {
        "egress"@
    } else if direction == 2 {
        "both"@
    } else {
        decimal(direction as nat)
    }
}

/// Names a direction.
pub fn normalized_acl_direction(direction: u8) -> (r: String)
    ensures
        r@ == direction_name(direction),
{
    if direction == 0 {
        "ingress".to_owned()
    } else if direction == 1 {
        "egress".to_owned()
    } else if direction == 2 {
        "both".to_owned()
    } else {
        u64_text(direction as u64)
    }
}

/// The number of a protocol name.
pub open spec fn proto_value(name: Seq<char>) -> Option<u8> {
    let n = lowered(name);
    if n == "any"@ {
        Some(0)
    } else if n == "icmp"@ {
        Some(1)
    } else if n == "tcp"@ {
        Some(6)
    } else if n == "udp"@ {
        Some(17)
    } else {
        None
    }
}

/// The number of an action name: zero lets traffic pass, one drops it.
pub open spec fn action_value(name: Seq<char>) -> Option<u8> {
    let n = lowered(name);
    if n == "allow"@ || n == "accept"@ || n == "pass"@ {
        Some(0)
    } else if n == "drop"@ || n == "deny"@ {
        Some(1)
    } else {
        None
    }
}

/// The number of a direction name.
pub open spec fn direction_value(name: Seq<char>) -> Option<u8> {
    let n = lowered(name);
    if n == "ingress"@ {
        Some(0)
    } else if n == "egress"@ {
        Some(1)
    } else if n == "both"@ {
        Some(2)
    } else {
        None
    }
}

fn unknown_name(kind: &str, name: &str) -> (r: String)
    ensures
        r@ == "unknown "@ + kind@ + ": "@ + name@,
{
    let mut r = "unknown ".to_owned();
    r.append(kind);
    r.append(": ");
    r.append(name);
    r
}

/// Reads a protocol name.
pub fn proto_from_string(name: &str) -> (r: Result<u8, String>)
    ensures
        match r {
            Ok(proto) => proto_value(name@) == Some(proto),
            Err(error) => proto_value(name@) is None && error@ == "unknown "@ + "protocol"@ + ": "@
                + name@,
        },
{
    let lower = name.to_ascii_lowercase();
    let n = lower.as_str();
    if text_eq(n, "any") {
        Ok(0)
    } else if text_eq(n, "icmp") {
        Ok(1)
    } else if text_eq(n, "tcp") {
        Ok(6)
    } else if text_eq(n, "udp") {
        Ok(17)
    } else {
        Err(unknown_name("protocol", name))
    }
}

/// Reads an action name.
pub fn action_from_string(name: &str) -> (r: Result<u8, String>)
    ensures
        match r {
            Ok(action) => action_value(name@) == Some(action),
            Err(error) => action_value(name@) is None && error@ == "unknown "@ + "action"@ + ": "@
                + name@,
        },
{
    let lower = name.to_ascii_lowercase();
    let n = lower.as_str();
    if text_eq(n, "allow") || text_eq(n, "accept") || text_eq(n, "pass") {
        Ok(0)
    } else if text_eq(n, "drop") || text_eq(n, "deny") {
        Ok(1)
    } else {
        Err(unknown_name("action", name))
    }
}

/// Reads a direction name.
pub fn direction_from_string(name: &str) -> (r: Result<u8, String>)
    ensures
        match r {
            Ok(direction) => direction_value(name@) == Some(direction),
            Err(error) => direction_value(name@) is None && error@ == "unknown "@ + "direction"@
                + ": "@ + name@,
        },
{
    let lower = name.to_ascii_lowercase();
    let n = lower.as_str();
    if text_eq(n, "ingress") {
        Ok(0)
    } else if text_eq(n, "egress") {
        Ok(1)
    } else if text_eq(n, "both") {
        Ok(2)
    } else {
        Err(unknown_name("direction", name))
    }
}

/// The index of the first network with a colon in it, or the number of networks.
pub open spec fn first_colon(cidrs: Seq<Seq<char>>) -> int {
    first_from(cidrs.len() as int, 0, |i: int| cidrs[i].contains(':'))
}

/// The error text of a rule with an IPv6 network.
pub open spec fn ipv6_cidr_error(rule_id: Seq<char>, cidr: Seq<char>) -> Seq<char> {
    "rule "@ + rule_id + " uses IPv6 CIDR "@ + cidr + "; unsupported"@
}

/// Refuses networks in IPv6 notation.
pub fn ensure_ipv4_cidrs(cidrs: &[String], rule_id: &str) -> (r: Result<(), String>)
    ensures
        match r {
            Ok(_) => first_colon(cidrs.deep_view()) == cidrs.deep_view().len(),
            Err(error) => first_colon(cidrs.deep_view()) < cidrs.deep_view().len() && error@
                == ipv6_cidr_error(rule_id@, cidrs.deep_view()[first_colon(cidrs.deep_view())]),
        },
{
    let ghost models = cidrs.deep_view();
    let ghost p = |i: int| models[i].contains(':');
    let mut i: usize = 0;
    while i < cidrs.len()
        invariant
            i <= cidrs.len(),
            models == cidrs.deep_view(),
            p == (|i: int| models[i].contains(':')),
            first_colon(models) == first_from(models.len() as int, i as int, p),
        decreases cidrs.len() - i,
    {
        assert(models[i as int] == cidrs@[i as int]@);
        if contains_char(cidrs[i].as_str(), ':') {
            assert(p(i as int));
            let mut error = "rule ".to_owned();
            error.append(rule_id);
            error.append(" uses IPv6 CIDR ");
            error.append(cidrs[i].as_str());
            error.append("; unsupported");
            return Err(error);
        }
        assert(!p(i as int));
        i += 1;
    }
    Ok(())
}

/// The index of the first text that names no network, or the number of texts.
pub open spec fn first_invalid(cidrs: Seq<Seq<char>>) -> int {
    first_from(cidrs.len() as int, 0, |i: int| cidr_value(cidrs[i]) is None)
}

/// The networks that texts name.
pub open spec fn cidr_set(cidrs: Seq<Seq<char>>) -> Set<CidrModel> {
    Set::new(
        |c: CidrModel|
            exists|i: int| 0 <= i < cidrs.len() && cidr_value(#[trigger] cidrs[i]) == Some(c),
    )
}

/// The networks of one side of a rule in order, or why they are refused.
pub open spec fn cidrs_value(cidrs: Seq<Seq<char>>, rule_id: Seq<char>) -> Result<
    Seq<CidrModel>,
    Seq<char>,
> {
    if first_colon(cidrs) < cidrs.len() {
        Err(ipv6_cidr_error(rule_id, cidrs[first_colon(cidrs)]))
    } else if first_invalid(cidrs) < cidrs.len() {
        Err(invalid_cidr(cidrs[first_invalid(cidrs)]))
    } else {
        Ok(in_order::<AclIpv4Cidr>(cidr_set(cidrs)))
    }
}

/// Reads the networks of one side of a rule, sorted and each once.
pub fn canonical_acl_cidrs(cidrs: &[String], rule_id: &str) -> (r: Result<
    Vec<AclIpv4Cidr>,
    String,
>)
    ensures
        crate::ordered::result_view(r) == cidrs_value(cidrs.deep_view(), rule_id@),
{
    let ghost models = cidrs.deep_view();
    if let Err(error) = ensure_ipv4_cidrs(cidrs, rule_id) {
        return Err(error);
    }
    let ghost p = |i: int| cidr_value(models[i]) is None;
    let mut members: OrderedMap<AclIpv4Cidr, bool> = OrderedMap::new();
    let mut i: usize = 0;
    assert(members.deep_view().dom() =~= cidr_set(models.take(0)));
    while i < cidrs.len()
        invariant
            i <= cidrs.len(),
            models == cidrs.deep_view(),
            p == (|i: int| cidr_value(models[i]) is None),
            first_colon(models) == models.len(),
            first_invalid(models) == first_from(models.len() as int, i as int, p),
            members.deep_view().dom() == cidr_set(models.take(i as int)),
        decreases cidrs.len() - i,
    {
        assert(models[i as int] == cidrs@[i as int]@);
        match AclIpv4Cidr::parse(cidrs[i].as_str()) {
            Ok(cidr) => {
                assert(!p(i as int));
                let ghost before = members.deep_view().dom();
                members.insert(cidr, true);
                proof {
                    let next = models.take(i + 1);
                    assert forall|c: CidrModel| #[trigger] cidr_set(next).contains(c) <==> (c
                        == cidr.deep_view() || before.contains(c)) by {
                        if before.contains(c) {
                            let k = choose|k: int|
                                0 <= k < i && cidr_value(#[trigger] models.take(i as int)[k])
                                    == Some(c);
                            assert(next[k] == models.take(i as int)[k]);
                        }
                        assert(next[i as int] == models[i as int]);
                        if cidr_set(next).contains(c) {
                            let k = choose|k: int|
                                0 <= k < next.len() && cidr_value(#[trigger] next[k]) == Some(c);
                            if k < i {
                                assert(next[k] == models.take(i as int)[k]);
                            }
                        }
                    }
                    assert(members.deep_view().dom() =~= cidr_set(next));
                }
            },
            Err(error) => {
                assert(p(i as int));
                return Err(error);
            },
        }
        i += 1;
    }
    assert(models.take(i as int) =~= models);
    let ghost keys = in_order::<AclIpv4Cidr>(members.deep_view().dom());
    let mut sorted: Vec<AclIpv4Cidr> = Vec::new();
    let n: usize = members.len();
    let mut k: usize = 0;
    while k < n
        invariant
            k <= n,
            n == keys.len(),
            keys == in_order::<AclIpv4Cidr>(members.deep_view().dom()),
            sorted.deep_view() == keys.take(k as int),
        decreases n - k,
    {
        let ghost before = sorted.deep_view();
        sorted.push(*members.key_at(k));
        assert(sorted.deep_view() =~= before.push(keys[k as int]));
        assert(keys.take(k + 1) =~= keys.take(k as int).push(keys[k as int]));
        k += 1;
    }
    assert(keys.take(k as int) =~= keys);
    Ok(sorted)
}

/// The first of two optional ports that is there.
pub open spec fn port_or(a: Option<u16>, b: Option<u16>) -> Option<u16> {
    match a {
        Some(port) => Some(port),
        None => b,
    }
}

/// The port list of a rule as a text, if the rule names ports.
pub open spec fn rule_ports(
    rule: NeutronAclRuleSnapshotModel,
    proto: u8,
    rule_id: Seq<char>,
) -> Result<Option<Seq<char>>, Seq<char>> {
    if rule.src_port_min is Some || rule.src_port_max is Some {
        Err(
            "rule "@ + rule_id
                + " uses source port matching; unsupported by current datapath translator"@,
        )
    } else {
        match (
            port_or(rule.dst_port_min, rule.dst_port_max),
            port_or(rule.dst_port_max, rule.dst_port_min),
        ) {
            (Some(min), Some(max)) => if proto != 6 && proto != 17 {
                Err(
                    "rule "@ + rule_id + " uses L4 ports with protocol "@ + decimal(proto as nat)
                        + "; only tcp/udp are supported"@,
                )
            } else if min > max {
                Err(
                    "rule "@ + rule_id + " has invalid destination port range "@ + decimal(
                        min as nat,
                    ) + "-"@ + decimal(max as nat),
                )
            } else if min == max {
                Ok(Some(decimal(min as nat)))
            } else {
                Ok(Some(decimal(min as nat) + "-"@ + decimal(max as nat)))
            },
            _ => Ok(None),
        }
    }
}

fn first_port(a: Option<u16>, b: Option<u16>) -> (r: Option<u16>)
    ensures
        r == port_or(a, b),
{
    match a {
        Some(port) => Some(port),
        None => b,
    }
}

/// Writes the destination ports of a rule as a port list.
pub fn acl_ports(rule: &NeutronAclRuleSnapshot, proto: u8, rule_id: &str) -> (r: Result<
    Option<String>,
    String,
>)
    ensures
        crate::ordered::result_view(r) == rule_ports(rule.deep_view(), proto, rule_id@),
{
    if rule.src_port_min.is_some() || rule.src_port_max.is_some() {
        let mut error = "rule ".to_owned();
        error.append(rule_id);
        error.append(" uses source port matching; unsupported by current datapath translator");
        return Err(error);
    }
    let min = first_port(rule.dst_port_min, rule.dst_port_max);
    let max = first_port(rule.dst_port_max, rule.dst_port_min);
    let (min, max): (u16, u16) = match (min, max) {
        (Some(min), Some(max)) => (min, max),
        _ => {
            return Ok(None);
        },
    };
    if proto != 6 && proto != 17 {
        let mut error = "rule ".to_owned();
        error.append(rule_id);
        error.append(" uses L4 ports with protocol ");
        error.append(u64_text(proto as u64).as_str());
        error.append("; only tcp/udp are supported");
        return Err(error);
    }
    if min > max {
        let mut error = "rule ".to_owned();
        error.append(rule_id);
        error.append(" has invalid destination port range ");
        error.append(u64_text(min as u64).as_str());
        error.append("-");
        error.append(u64_text(max as u64).as_str());
        return Err(error);
    }
    let mut ports = u64_text(min as u64);
    if min != max {
        ports.append("-");
        ports.append(u64_text(max as u64).as_str());
    }
    Ok(Some(ports))
}

/// A text, or a fallback where it is missing, without white space around it.
pub open spec fn trimmed_or(text: Option<Seq<char>>, fallback: Seq<char>) -> Seq<char> {
    trimmed(
        match text {
            Some(t) => t,
            None => fallback,
        },
    )
}

fn trim_or(text: &Option<String>, fallback: &str) -> (r: String)
    ensures
        r@ == trimmed_or(text.deep_view(), fallback@),
{
    match text {
        Some(t) => trim(t.as_str()).to_owned(),
        None => trim(fallback).to_owned(),
    }
}

/// The datapath hooks for a direction in ascending order.
pub open spec fn sorted_directions(direction: u8) -> Seq<u8> {
    if direction == 2 {
        seq![0u8, 1u8]
    } else {
        datapath_directions(direction)
    }
}

/// True when a rule is for IPv6 traffic.
pub open spec fn rule_is_ipv6(rule: NeutronAclRuleSnapshotModel) -> bool {
    rule.ethertype matches Some(ethertype) && lowered(ethertype) == lowered("IPv6"@)
}

/// The error text of a rule part that was not understood.
pub open spec fn rule_error(rule_id: Seq<char>, part: Seq<char>, name: Seq<char>) -> Seq<char> {
    "rule "@ + rule_id + " "@ + part + ": "@ + ("unknown "@ + part + ": "@ + name)
}

/// The ranges of the ports of a rule.
pub open spec fn rule_ranges(
    rule: NeutronAclRuleSnapshotModel,
    proto: u8,
    rule_id: Seq<char>,
) -> Result<Seq<(u16, u16)>, Seq<char>> {
    match rule_ports(rule, proto, rule_id) {
        Err(error) => Err(error),
        Ok(None) => Ok(Seq::empty()),
        Ok(Some(ports)) => ranges_value(ports),
    }
}

/// A rule with its texts parsed, or why it is refused.
pub open spec fn canonical_rule(rule: NeutronAclRuleSnapshotModel, index: nat) -> Result<
    CanonicalAclRuleModel,
    Seq<char>,
> {
    let id = rule_name(rule.id, index);
    let proto_name = trimmed_or(rule.protocol, "any"@);
    let action_name = trimmed_or(rule.action, "allow"@);
    let way = trimmed_or(rule.direction, "ingress"@);
    if rule_is_ipv6(rule) {
        Err("rule "@ + id + " uses IPv6 ethertype; unsupported"@)
    } else {
        match cidrs_value(rule.src_cidrs, id) {
            Err(error) => Err(error),
            Ok(src) => match cidrs_value(rule.dst_cidrs, id) {
                Err(error) => Err(error),
                Ok(dst) => match proto_value(proto_name) {
                    None => Err(rule_error(id, "protocol"@, proto_name)),
                    Some(proto) => match action_value(action_name) {
                        None => Err(rule_error(id, "action"@, action_name)),
                        Some(action) => match direction_value(way) {
                            None => Err(rule_error(id, "direction"@, way)),
                            Some(direction) => match rule_ranges(rule, proto, id) {
                                Err(error) => Err(error),
                                Ok(ports) => Ok(
                                    CanonicalAclRuleModel {
                                        id,
                                        direction: direction_name(direction),
                                        priority: rule.priority,
                                        directions: sorted_directions(direction),
                                        proto,
                                        action,
                                        src_cidrs: src,
                                        dst_cidrs: dst,
                                        ports,
                                    },
                                ),
                            },
                        },
                    },
                },
            },
        }
    }
}

fn rule_fault(rule_id: &str, part: &str, error: &str) -> (r: String)
    ensures
        r@ == "rule "@ + rule_id@ + " "@ + part@ + ": "@ + error@,
{
    let mut r = "rule ".to_owned();
    r.append(rule_id);
    r.append(" ");
    r.append(part);
    r.append(": ");
    r.append(error);
    r
}

/// Parses the texts of a rule.
pub fn normalize_acl_rule(rule: &NeutronAclRuleSnapshot, index: usize) -> (r: Result<
    CanonicalAclRule,
    String,
>)
    ensures
        crate::ordered::result_view(r) == canonical_rule(rule.deep_view(), index as nat),
{
    let id = acl_rule_id(rule, index);
    let ipv6 = match &rule.ethertype {
        Some(ethertype) => text_eq_ignore_case(ethertype.as_str(), "IPv6"),
        None => false,
    };
    if ipv6 {
        let mut error = "rule ".to_owned();
        error.append(id.as_str());
        error.append(" uses IPv6 ethertype; unsupported");
        return Err(error);
    }
    let src_texts = rule.src_cidrs.as_slice();
    let dst_texts = rule.dst_cidrs.as_slice();
    assert(src_texts.deep_view() =~= rule.src_cidrs.deep_view());
    assert(dst_texts.deep_view() =~= rule.dst_cidrs.deep_view());
    let src_cidrs = match canonical_acl_cidrs(src_texts, id.as_str()) {
        Ok(cidrs) => cidrs,
        Err(error) => {
            return Err(error);
        },
    };
    let dst_cidrs = match canonical_acl_cidrs(dst_texts, id.as_str()) {
        Ok(cidrs) => cidrs,
        Err(error) => {
            return Err(error);
        },
    };
    let proto_name = trim_or(&rule.protocol, "any");
    let proto: u8 = match proto_from_string(proto_name.as_str()) {
        Ok(proto) => proto,
        Err(error) => {
            return Err(rule_fault(id.as_str(), "protocol", error.as_str()));
        },
    };
    let action_name = trim_or(&rule.action, "allow");
    let action: u8 = match action_from_string(action_name.as_str()) {
        Ok(action) => action,
        Err(error) => {
            return Err(rule_fault(id.as_str(), "action", error.as_str()));
        },
    };
    let way = trim_or(&rule.direction, "ingress");
    let direction: u8 = match direction_from_string(way.as_str()) {
        Ok(direction) => direction,
        Err(error) => {
            return Err(rule_fault(id.as_str(), "direction", error.as_str()));
        },
    };
    let ports = match acl_ports(rule, proto, id.as_str()) {
        Err(error) => {
            return Err(error);
        },
        Ok(None) => Vec::new(),
        Ok(Some(ports)) => match parse_acl_port_ranges(ports.as_str()) {
            Ok(ranges) => ranges,
            Err(error) => {
                return Err(error);
            },
        },
    };
    let mut directions = neutron_acl_to_datapath_directions(direction);
    if directions.len() == 2 && directions[1] < directions[0] {
        let first: u8 = directions[0];
        let second: u8 = directions[1];
        directions[0] = second;
        directions[1] = first;
    }
    assert(directions.deep_view() =~= sorted_directions(direction));
    assert(ports.deep_view() =~= ports@);
    Ok(
        CanonicalAclRule {
            id,
            direction: normalized_acl_direction(direction),
            priority: rule.priority,
            directions,
            proto,
            action,
            src_cidrs,
            dst_cidrs,
            ports,
        },
    )
}

/// The reason why one side of a rule has too many networks, if it has.
pub open spec fn side_limit_reason(side: Seq<char>, id: Seq<char>, members: nat) -> Option<
    Seq<char>,
> {
    if members > MAX_ACL_SELECTOR_MEMBERS {
        Some(
            "acl_selector_member_limit_exceeded:"@ + side + ":"@ + id + ":"@ + decimal(members)
                + ":"@ + decimal(MAX_ACL_SELECTOR_MEMBERS as nat),
        )
    } else {
        None
    }
}

/// The reason why a rule has too many networks, if it has.
pub open spec fn rule_limit_reason(rule: NeutronAclRuleSnapshotModel, index: nat) -> Option<
    Seq<char>,
> {
    let id = rule_name(rule.id, index);
    match side_limit_reason("src"@, id, rule.src_cidrs.len()) {
        Some(reason) => Some(reason),
        None => side_limit_reason("dst"@, id, rule.dst_cidrs.len()),
    }
}

/// The first reason among the rules from the one at `i` on.
pub open spec fn rules_limit_reason(rules: Seq<NeutronAclRuleSnapshotModel>, i: int) -> Option<
    Seq<char>,
>
    decreases rules.len() - i,
{
    if i < 0 || i >= rules.len() {
        None
    } else {
        match rule_limit_reason(rules[i], i as nat) {
            Some(reason) => Some(reason),
            None => rules_limit_reason(rules, i + 1),
        }
    }
}

/// The reason why an ACL is too large for the datapath, if it is.
pub open spec fn limit_reason(rules: Seq<NeutronAclRuleSnapshotModel>) -> Option<Seq<char>> {
    if rules.len() > MAX_ACL_RULES_PER_POLICY {
        Some(
            "acl_rule_limit_exceeded:"@ + decimal(rules.len()) + ":"@ + decimal(
                MAX_ACL_RULES_PER_POLICY as nat,
            ),
        )
    } else {
        rules_limit_reason(rules, 0)
    }
}

fn side_limit(side: &str, id: &str, members: usize) -> (r: Option<String>)
    ensures
        r.deep_view() == side_limit_reason(side@, id@, members as nat),
{
    if members <= MAX_ACL_SELECTOR_MEMBERS {
        return None;
    }
    let mut reason = "acl_selector_member_limit_exceeded:".to_owned();
    reason.append(side);
    reason.append(":");
    reason.append(id);
    reason.append(":");
    reason.append(usize_text(members).as_str());
    reason.append(":");
    reason.append(usize_text(MAX_ACL_SELECTOR_MEMBERS).as_str());
    Some(reason)
}

/// Says why an ACL is too large for the datapath, if it is.
pub fn acl_runtime_limit_reason(acl: &NeutronAclSnapshot) -> (r: Option<String>)
    ensures
        r.deep_view() == limit_reason(acl.deep_view().rules),
{
    let ghost models = acl.rules.deep_view();
    if acl.rules.len() > MAX_ACL_RULES_PER_POLICY {
        let mut reason = "acl_rule_limit_exceeded:".to_owned();
        reason.append(usize_text(acl.rules.len()).as_str());
        reason.append(":");
        reason.append(usize_text(MAX_ACL_RULES_PER_POLICY).as_str());
        return Some(reason);
    }
    let mut i: usize = 0;
    while i < acl.rules.len()
        invariant
            i <= acl.rules.len(),
            models == acl.rules.deep_view(),
            models.len() <= MAX_ACL_RULES_PER_POLICY,
            limit_reason(models) == rules_limit_reason(models, i as int),
        decreases acl.rules.len() - i,
    {
        let rule = &acl.rules[i];
        assert(models[i as int] == rule.deep_view());
        let id = acl_rule_id(rule, i);
        let src = side_limit("src", id.as_str(), rule.src_cidrs.len());
        if src.is_some() {
            return src;
        }
        let dst = side_limit("dst", id.as_str(), rule.dst_cidrs.len());
        if dst.is_some() {
            return dst;
        }
        i += 1;
    }
    None
}

} // verus!
