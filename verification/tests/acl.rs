use neutron_agent::acl_cidr::AclIpv4Cidr;
use neutron_agent::acl_gate::{
    acl_gate_update_mode, acl_reconcile_error, acl_runtime_feature_requires_tc,
    acl_runtime_transition, AclGateUpdateMode, AclReconcileFailurePhase, AclRuntimeFeatureState,
    ACL_INGRESS_HOOK_TC,
};
use neutron_agent::acl_overlap::acl_priority_overlap_reason;
use neutron_agent::acl_plan::{
    cached_neutron_acl_template, translate_neutron_acl_with_cache, validate_neutron_acl_template,
    AclApplyPlan, AclGroupPlan, AclPolicyPlan, AclValidatedTemplate, AclValidation,
    AclValidationCache,
};
use neutron_agent::acl_rules::{
    acl_runtime_limit_reason, MAX_ACL_RULES_PER_POLICY, MAX_ACL_SELECTOR_MEMBERS,
};
use neutron_agent::acl_selector::{
    acl_selector_best_overlap, acl_selector_id, AclSelectorId, NormalizedAclRule,
};
use neutron_agent::model::{NeutronAclRuleSnapshot, NeutronAclSnapshot, NeutronPortSnapshot};
use neutron_agent::payload::EncodedPayload;
use neutron_agent::reconcile::{blocked_by_unimplemented_domains, unimplemented_domain_reason};
use neutron_agent::status::NeutronAclReconcileOutcome;
use neutron_agent::status_v1::{
    status_v1_reason_is_unsupported, status_v1_reason_requires_full_resync,
};

fn encode(acl: &mut NeutronAclSnapshot) {
    let content = format!("{:?}", (&acl.default_action, &acl.rules));
    acl.content_payload = EncodedPayload::Json(content.into_bytes());
}

fn encoded(acl: &Option<NeutronAclSnapshot>) -> EncodedPayload {
    EncodedPayload::Json(format!("{:?}", acl).into_bytes())
}

fn translate_neutron_acl_for_test(
    port_id: &str,
    acl: &NeutronAclSnapshot,
) -> Result<AclApplyPlan, String> {
    let mut cache = AclValidationCache::default();
    translate_neutron_acl_with_cache(port_id, acl, &mut cache)
}

fn ready_acl(rules: Vec<NeutronAclRuleSnapshot>) -> NeutronAclSnapshot {
    let mut acl = NeutronAclSnapshot {
        enabled: true,
        status: "ready".to_string(),
        reason: "ready".to_string(),
        effective_action: "enforce".to_string(),
        policy_id: Some("acl-policy".to_string()),
        policy_name: Some("smoke".to_string()),
        binding_id: Some("acl-binding".to_string()),
        source: Some("port".to_string()),
        default_action: "allow".to_string(),
        stateful: true,
        revision: 1,
        rules,
        content_payload: EncodedPayload::Json(Vec::new()),
    };
    encode(&mut acl);
    acl
}

fn tcp_rule(id: &str, action: &str, dst_port: u16) -> NeutronAclRuleSnapshot {
    NeutronAclRuleSnapshot {
        id: Some(id.to_string()),
        direction: Some("ingress".to_string()),
        priority: 100,
        action: Some(action.to_string()),
        ethertype: Some("IPv4".to_string()),
        protocol: Some("tcp".to_string()),
        src_cidrs: Vec::new(),
        dst_cidrs: Vec::new(),
        src_port_min: None,
        src_port_max: None,
        dst_port_min: Some(dst_port),
        dst_port_max: Some(dst_port),
    }
}

fn acl_rule_with(
    id: &str,
    priority: i64,
    protocol: &str,
    action: &str,
    src_cidrs: &[&str],
    dst_cidrs: &[&str],
    dst_port: Option<u16>,
) -> NeutronAclRuleSnapshot {
    NeutronAclRuleSnapshot {
        id: Some(id.to_string()),
        direction: Some("egress".to_string()),
        priority,
        action: Some(action.to_string()),
        ethertype: Some("IPv4".to_string()),
        protocol: Some(protocol.to_string()),
        src_cidrs: src_cidrs.iter().map(|value| value.to_string()).collect(),
        dst_cidrs: dst_cidrs.iter().map(|value| value.to_string()).collect(),
        src_port_min: None,
        src_port_max: None,
        dst_port_min: dst_port,
        dst_port_max: dst_port,
    }
}

fn numbered_acl_rules(count: usize) -> Vec<NeutronAclRuleSnapshot> {
    (0..count)
        .map(|index| {
            acl_rule_with(
                &format!("rule-{}", index),
                index as i64,
                "tcp",
                "drop",
                &[],
                &[],
                None,
            )
        })
        .collect()
}

fn numbered_acl_members(count: usize) -> Vec<String> {
    (0..count)
        .map(|index| {
            format!(
                "10.{}.{}.{}/32",
                (index >> 16) & 0xff,
                (index >> 8) & 0xff,
                index & 0xff,
            )
        })
        .collect()
}

fn normalized_acl_rule_with_selectors(
    id: &str,
    priority: i64,
    proto: u8,
    src_selector_id: usize,
    dst_selector_id: usize,
) -> NormalizedAclRule {
    NormalizedAclRule {
        id: id.to_string(),
        direction: "egress".to_string(),
        priority,
        directions: vec![0],
        proto,
        action: 1,
        src_selector_id: AclSelectorId(src_selector_id),
        dst_selector_id: AclSelectorId(dst_selector_id),
        ports: Vec::new(),
    }
}

fn port(port_id: &str, ifname: &str, eligible: bool) -> NeutronPortSnapshot {
    NeutronPortSnapshot {
        port_id: port_id.to_string(),
        ifname: ifname.to_string(),
        ifindex: None,
        eligible,
        disposition: None,
        device_owner: None,
        vif_type: None,
        vnic_type: None,
        network_backend: None,
        ovs_iface_id: None,
        managed_domains: Vec::new(),
        acl: None,
        acl_payload: encoded(&None),
    }
}

#[test]
fn neutron_acl_translator_merges_same_tuple_l4_port_rules() {
    let mut drop_8080 = tcp_rule("drop-8080", "drop", 8080);
    drop_8080.priority = 101;
    let acl = ready_acl(vec![
        tcp_rule("drop-18081", "drop", 18081),
        drop_8080,
    ]);

    let plan =
        translate_neutron_acl_for_test("port-1", &acl).expect("ACL should translate");

    assert_eq!(plan.groups, Vec::new());
    assert_eq!(
        plan.policies,
        vec![AclPolicyPlan {
            src_group: "any".to_string(),
            dst_group: "any".to_string(),
            proto: 6,
            action: 1,
            direction: 1,
            ports: Some("8080,18081".to_string()),
        }]
    );
}

#[test]
fn neutron_acl_translator_trims_protocol_before_parsing() {
    let acl = ready_acl(vec![acl_rule_with(
        "trimmed-protocol",
        10,
        " TCP ",
        "drop",
        &[],
        &[],
        None,
    )]);

    let plan = translate_neutron_acl_for_test("port-1", &acl)
        .expect("protocol whitespace and case should normalize");

    assert_eq!(plan.policies.len(), 1);
    assert_eq!(plan.policies[0].proto, 6);
    assert_eq!(plan.force_bypass_reason, None);
}

#[test]
fn neutron_acl_translator_trims_action_before_parsing() {
    let acl = ready_acl(vec![acl_rule_with(
        "trimmed-action",
        10,
        "tcp",
        " DENY ",
        &[],
        &[],
        None,
    )]);

    let plan = translate_neutron_acl_for_test("port-1", &acl)
        .expect("action whitespace and case should normalize");

    assert_eq!(plan.policies.len(), 1);
    assert_eq!(plan.policies[0].action, 1);
    assert_eq!(plan.force_bypass_reason, None);
}

#[test]
fn neutron_acl_translator_trims_direction_before_parsing() {
    let mut rule = acl_rule_with(
        "trimmed-direction",
        10,
        "tcp",
        "drop",
        &[],
        &[],
        None,
    );
    rule.direction = Some(" InGrEsS ".to_string());
    let acl = ready_acl(vec![rule]);

    let plan = translate_neutron_acl_for_test("port-1", &acl)
        .expect("direction whitespace and case should normalize");

    assert_eq!(plan.policies.len(), 1);
    assert_eq!(plan.policies[0].direction, 1);
    assert_eq!(plan.force_bypass_reason, None);
}

#[test]
fn neutron_acl_cidrs_match_python_strict_grammar() {
    assert_eq!(
        AclIpv4Cidr::parse(" 10.1.2.3/24 ")
            .unwrap()
            .canonical(),
        "10.1.2.0/24"
    );
    assert!(AclIpv4Cidr::parse("10.1/16").is_err());
    assert!(AclIpv4Cidr::parse("010.1.2.3/24").is_err());
}

#[test]
fn neutron_acl_runtime_limits_accept_boundary_and_force_bypass_overflow() {
    let accepted = ready_acl(numbered_acl_rules(MAX_ACL_RULES_PER_POLICY));
    assert_eq!(
        translate_neutron_acl_for_test("port-1", &accepted)
            .unwrap()
            .force_bypass_reason,
        None
    );

    let rejected = ready_acl(numbered_acl_rules(MAX_ACL_RULES_PER_POLICY + 1));
    assert_eq!(
        translate_neutron_acl_for_test("port-1", &rejected)
            .unwrap()
            .force_bypass_reason
            .as_deref(),
        Some("acl_rule_limit_exceeded:1001:1000")
    );
}

#[test]
fn neutron_acl_selector_limit_accepts_2048_and_force_bypasses_2049() {
    let mut accepted_rule = acl_rule_with(
        "accepted-members",
        10,
        "tcp",
        "drop",
        &[],
        &[],
        None,
    );
    accepted_rule.src_cidrs = numbered_acl_members(MAX_ACL_SELECTOR_MEMBERS);
    let accepted = ready_acl(vec![accepted_rule]);
    assert_eq!(
        translate_neutron_acl_for_test("port-1", &accepted)
            .unwrap()
            .force_bypass_reason,
        None,
    );

    let mut rejected_rule = acl_rule_with(
        "rejected-members",
        10,
        "tcp",
        "drop",
        &[],
        &[],
        None,
    );
    rejected_rule.src_cidrs = numbered_acl_members(MAX_ACL_SELECTOR_MEMBERS + 1);
    let rejected = ready_acl(vec![rejected_rule]);
    assert_eq!(
        translate_neutron_acl_for_test("port-1", &rejected)
            .unwrap()
            .force_bypass_reason
            .as_deref(),
        Some("acl_selector_member_limit_exceeded:src:rejected-members:2049:2048"),
    );
}

#[test]
fn neutron_acl_normalized_rules_store_only_selector_ids() {
    let rule = normalized_acl_rule_with_selectors("id-only", 10, 6, 1, 2);

    assert_eq!(rule.src_selector_id, AclSelectorId(1));
    assert_eq!(rule.dst_selector_id, AclSelectorId(2));
}

#[test]
fn neutron_acl_shared_large_selector_is_stored_once_for_1000_rules() {
    let selector = numbered_acl_members(MAX_ACL_SELECTOR_MEMBERS)
        .iter()
        .map(|cidr| AclIpv4Cidr::parse(cidr).unwrap())
        .collect::<Vec<_>>();
    let rules = (0..MAX_ACL_RULES_PER_POLICY)
        .map(|index| {
            normalized_acl_rule_with_selectors(
                &format!("shared-{}", index),
                index as i64,
                if index % 2 == 0 { 6 } else { 17 },
                1,
                0,
            )
        })
        .collect::<Vec<_>>();
    let template = AclValidatedTemplate::Ready {
        rules,
        src_selectors: vec![Vec::new(), selector.clone()],
        dst_selectors: vec![Vec::new()],
    };

    let AclValidatedTemplate::Ready {
        rules,
        src_selectors,
        dst_selectors,
    } = template
    else {
        panic!("expected ready template");
    };
    assert_eq!(rules.len(), MAX_ACL_RULES_PER_POLICY);
    assert!(rules.iter().all(|rule| rule.src_selector_id == AclSelectorId(1)));
    assert_eq!(src_selectors, vec![Vec::new(), selector]);
    assert_eq!(dst_selectors, vec![Vec::new()]);
}

#[test]
fn neutron_acl_1000_disjoint_selectors_pass_interval_sweep() {
    let mut src_selectors = vec![Vec::new()];
    let mut rules = Vec::new();
    let members = numbered_acl_members(MAX_ACL_RULES_PER_POLICY);
    for index in 0..MAX_ACL_RULES_PER_POLICY {
        src_selectors.push(vec![AclIpv4Cidr::parse(&members[index]).unwrap()]);
        rules.push(normalized_acl_rule_with_selectors(
            &format!("disjoint-{}", index),
            index as i64,
            6,
            index + 1,
            0,
        ));
    }

    assert_eq!(
        acl_priority_overlap_reason(&rules, &src_selectors, &[Vec::new()]),
        None,
    );
}

#[test]
fn neutron_acl_cross_selector_nesting_keeps_stable_overlap_reason() {
    let src_selectors = vec![
        Vec::new(),
        vec![AclIpv4Cidr::parse("10.0.0.0/8").unwrap()],
        vec![AclIpv4Cidr::parse("10.1.0.0/16").unwrap()],
    ];
    let rules = vec![
        normalized_acl_rule_with_selectors("broad", 10, 6, 1, 0),
        normalized_acl_rule_with_selectors("narrow", 20, 17, 2, 0),
    ];

    assert_eq!(
        acl_priority_overlap_reason(&rules, &src_selectors, &[Vec::new()]),
        Some("unsupported_acl_cidr_overlap:src:broad:10:narrow:20".to_string()),
    );
}

#[test]
fn neutron_acl_overlap_reason_uses_earliest_rule_pair_not_address_order() {
    let src_selectors = vec![
        Vec::new(),
        vec![
            AclIpv4Cidr::parse("10.0.0.0/8").unwrap(),
            AclIpv4Cidr::parse("192.0.2.0/24").unwrap(),
        ],
        vec![AclIpv4Cidr::parse("192.0.2.128/25").unwrap()],
        vec![AclIpv4Cidr::parse("10.1.0.0/16").unwrap()],
    ];
    let rules = vec![
        normalized_acl_rule_with_selectors("first", 10, 6, 1, 0),
        normalized_acl_rule_with_selectors("second", 20, 17, 2, 0),
        normalized_acl_rule_with_selectors("third", 30, 1, 3, 0),
    ];

    assert_eq!(
        acl_priority_overlap_reason(&rules, &src_selectors, &[Vec::new()]),
        Some("unsupported_acl_cidr_overlap:src:first:10:second:20".to_string()),
    );
}

#[test]
fn neutron_acl_earlier_destination_pair_beats_later_source_conflict() {
    let src_selectors = vec![
        Vec::new(),
        vec![AclIpv4Cidr::parse("10.0.0.0/8").unwrap()],
        vec![AclIpv4Cidr::parse("10.1.0.0/16").unwrap()],
    ];
    let dst_selectors = vec![
        Vec::new(),
        vec![AclIpv4Cidr::parse("192.0.2.0/24").unwrap()],
        vec![AclIpv4Cidr::parse("192.0.2.128/25").unwrap()],
    ];
    let rules = vec![
        normalized_acl_rule_with_selectors("first", 10, 6, 1, 1),
        normalized_acl_rule_with_selectors("second", 20, 17, 0, 2),
        normalized_acl_rule_with_selectors("third", 30, 1, 2, 0),
    ];

    assert_eq!(
        acl_priority_overlap_reason(&rules, &src_selectors, &dst_selectors),
        Some("unsupported_acl_cidr_overlap:dst:first:10:second:20".to_string()),
    );
}

#[test]
fn neutron_acl_earlier_priority_pair_beats_later_cidr_pair() {
    let src_selectors = vec![
        Vec::new(),
        vec![AclIpv4Cidr::parse("10.0.0.0/32").unwrap()],
        vec![AclIpv4Cidr::parse("10.0.0.0/31").unwrap()],
    ];
    let dst_selectors = vec![
        Vec::new(),
        vec![AclIpv4Cidr::parse("192.0.2.0/24").unwrap()],
    ];
    let mut first = normalized_acl_rule_with_selectors("first", 10, 17, 1, 0);
    first.action = 0;
    let second = normalized_acl_rule_with_selectors("second", 20, 0, 0, 1);
    let mut third = normalized_acl_rule_with_selectors("third", 30, 6, 2, 0);
    third.action = 0;

    assert_eq!(
        acl_priority_overlap_reason(
            &[first, second, third],
            &src_selectors,
            &dst_selectors,
        ),
        Some("unsupported_acl_priority_overlap:first:10:second:20".to_string()),
    );
}

#[test]
fn neutron_acl_same_rule_pair_source_cidr_overlap_beats_destination() {
    let src_selectors = vec![
        Vec::new(),
        vec![AclIpv4Cidr::parse("10.0.0.0/24").unwrap()],
        vec![AclIpv4Cidr::parse("10.0.0.128/25").unwrap()],
    ];
    let dst_selectors = vec![
        Vec::new(),
        vec![AclIpv4Cidr::parse("192.0.2.0/24").unwrap()],
        vec![AclIpv4Cidr::parse("192.0.2.128/25").unwrap()],
    ];
    let rules = vec![
        normalized_acl_rule_with_selectors("first", 10, 6, 1, 1),
        normalized_acl_rule_with_selectors("second", 20, 17, 2, 2),
    ];

    assert_eq!(
        acl_priority_overlap_reason(&rules, &src_selectors, &dst_selectors),
        Some("unsupported_acl_cidr_overlap:src:first:10:second:20".to_string()),
    );
}

#[test]
fn neutron_acl_selector_sweep_reactivates_multi_gap_selectors_stably() {
    let selectors = vec![
        Vec::new(),
        vec![
            AclIpv4Cidr::parse("0.0.0.0/32").unwrap(),
            AclIpv4Cidr::parse("0.0.0.4/32").unwrap(),
        ],
        vec![
            AclIpv4Cidr::parse("0.0.0.0/31").unwrap(),
            AclIpv4Cidr::parse("0.0.0.4/31").unwrap(),
        ],
    ];
    let first_rule_indexes = vec![None, Some(1), Some(0)];

    assert_eq!(
        acl_selector_best_overlap(&selectors, &first_rule_indexes),
        Some((0, 1)),
    );
}

#[test]
fn neutron_acl_selector_sweep_returns_only_best_rule_pair_rank() {
    let selectors = vec![
        Vec::new(),
        vec![
            AclIpv4Cidr::parse("10.0.0.0/8").unwrap(),
            AclIpv4Cidr::parse("192.0.2.0/24").unwrap(),
        ],
        vec![AclIpv4Cidr::parse("192.0.2.128/25").unwrap()],
        vec![AclIpv4Cidr::parse("10.1.0.0/16").unwrap()],
    ];
    let first_rule_indexes = vec![None, Some(0), Some(1), Some(2)];

    assert_eq!(
        acl_selector_best_overlap(&selectors, &first_rule_indexes),
        Some((0, 1)),
    );
}

#[test]
fn neutron_acl_selector_sweep_repeated_overlap_keeps_one_best_candidate() {
    let mut selectors = vec![Vec::new()];
    for member in numbered_acl_members(MAX_ACL_RULES_PER_POLICY) {
        selectors.push(vec![
            AclIpv4Cidr::parse("10.0.0.0/8").unwrap(),
            AclIpv4Cidr::parse(&member).unwrap(),
        ]);
    }
    let first_rule_indexes = (0..selectors.len())
        .map(|selector_index| selector_index.checked_sub(1))
        .collect::<Vec<_>>();

    assert_eq!(
        acl_selector_best_overlap(&selectors, &first_rule_indexes),
        Some((0, 1)),
    );
}

#[test]
fn neutron_acl_same_selector_internal_nesting_is_accepted() {
    let src_selectors = vec![
        Vec::new(),
        vec![
            AclIpv4Cidr::parse("10.0.0.0/8").unwrap(),
            AclIpv4Cidr::parse("10.1.0.0/16").unwrap(),
        ],
    ];
    let rules = vec![
        normalized_acl_rule_with_selectors("tcp", 10, 6, 1, 0),
        normalized_acl_rule_with_selectors("udp", 20, 17, 1, 0),
    ];

    assert_eq!(
        acl_priority_overlap_reason(&rules, &src_selectors, &[Vec::new()]),
        None,
    );
}

#[test]
fn neutron_acl_source_and_destination_selector_spaces_are_independent() {
    let acl = ready_acl(vec![
        acl_rule_with("source", 10, "tcp", "drop", &["192.0.2.0/24"], &[], None),
        acl_rule_with(
            "destination",
            20,
            "udp",
            "drop",
            &[],
            &["192.0.2.0/24"],
            None,
        ),
    ]);

    let AclValidation::Template(AclValidatedTemplate::Ready {
        rules,
        src_selectors,
        dst_selectors,
    }) = validate_neutron_acl_template(&acl)
    else {
        panic!("expected ready template");
    };
    assert_eq!(src_selectors, dst_selectors);
    assert_eq!(src_selectors.len(), 2);
    assert_eq!(rules[0].src_selector_id, AclSelectorId(1));
    assert_eq!(rules[0].dst_selector_id, AclSelectorId(0));
    assert_eq!(rules[1].src_selector_id, AclSelectorId(0));
    assert_eq!(rules[1].dst_selector_id, AclSelectorId(1));
}

#[test]
fn neutron_acl_validation_cache_is_content_safe_and_port_specific() {
    let acl = ready_acl(vec![acl_rule_with(
        "cached",
        10,
        "tcp",
        "drop",
        &["10.1.2.3/24"],
        &[],
        None,
    )]);
    let mut cache = AclValidationCache::default();
    let first = translate_neutron_acl_with_cache("port-1", &acl, &mut cache).unwrap();
    let second = translate_neutron_acl_with_cache("port-2", &acl, &mut cache).unwrap();
    assert_eq!(cache.misses, 1);
    assert_eq!(cache.hits, 1);
    assert!(first
        .groups
        .iter()
        .all(|group| group.name.starts_with("neutron:port-1:")));
    assert!(second
        .groups
        .iter()
        .all(|group| group.name.starts_with("neutron:port-2:")));
    assert_eq!(first.groups[0].name, "neutron:port-1:src:selector:0");
    assert_eq!(second.groups[0].name, "neutron:port-2:src:selector:0");

    let mut changed_revision = acl.clone();
    changed_revision.revision += 1;
    translate_neutron_acl_with_cache("port-3", &changed_revision, &mut cache).unwrap();
    assert_eq!(cache.misses, 2);

    let mut changed_rules = acl;
    changed_rules.rules[0].action = Some("allow".to_string());
    encode(&mut changed_rules);
    translate_neutron_acl_with_cache("port-4", &changed_rules, &mut cache).unwrap();
    assert_eq!(cache.misses, 3);
}

#[test]
fn neutron_acl_translator_force_bypasses_nested_cidrs() {
    let acl = ready_acl(vec![
        acl_rule_with("broad", 10, "tcp", "allow", &["10.0.0.0/8"], &[], None),
        acl_rule_with("narrow", 20, "udp", "allow", &["10.1.0.0/16"], &[], None),
    ]);
    let plan = translate_neutron_acl_for_test("port-1", &acl).unwrap();
    assert!(plan.groups.is_empty());
    assert!(plan.policies.is_empty());
    assert_eq!(
        plan.force_bypass_reason.as_deref(),
        Some("unsupported_acl_cidr_overlap:src:broad:10:narrow:20")
    );
}

#[test]
fn neutron_acl_translator_reuses_canonical_cidr_groups() {
    let acl = ready_acl(vec![
        acl_rule_with("tcp", 10, "tcp", "drop", &["10.1.2.3/24"], &[], Some(80)),
        acl_rule_with("udp", 20, "udp", "drop", &["10.1.2.0/24"], &[], Some(53)),
    ]);
    let plan = translate_neutron_acl_for_test("port-1", &acl).unwrap();
    assert_eq!(plan.groups.len(), 1);
    assert_eq!(plan.groups[0].cidrs, vec!["10.1.2.0/24"]);
    assert_eq!(plan.policies[0].src_group, plan.policies[1].src_group);
    assert_eq!(plan.force_bypass_reason, None);
}

#[test]
fn neutron_acl_translator_force_bypasses_priority_fallback_conflict() {
    let acl = ready_acl(vec![
        acl_rule_with("wildcard", 10, "any", "allow", &[], &[], None),
        acl_rule_with("tcp-drop", 20, "tcp", "drop", &[], &[], None),
    ]);
    let plan = translate_neutron_acl_for_test("port-1", &acl).unwrap();
    assert_eq!(
        plan.force_bypass_reason.as_deref(),
        Some("unsupported_acl_priority_overlap:wildcard:10:tcp-drop:20")
    );
}

#[test]
fn neutron_acl_translator_force_bypasses_invalid_and_duplicate_priority() {
    let negative = ready_acl(vec![acl_rule_with(
        "negative", -1, "tcp", "drop", &[], &[], None,
    )]);
    assert_eq!(
        translate_neutron_acl_for_test("port-1", &negative)
            .unwrap()
            .force_bypass_reason
            .as_deref(),
        Some("invalid_acl_priority:negative:-1")
    );

    let duplicate = ready_acl(vec![
        acl_rule_with("first", 10, "tcp", "drop", &[], &[], None),
        acl_rule_with("second", 10, "udp", "drop", &[], &[], None),
    ]);
    assert_eq!(
        translate_neutron_acl_for_test("port-1", &duplicate)
            .unwrap()
            .force_bypass_reason
            .as_deref(),
        Some("duplicate_acl_priority:egress:10:first:second")
    );
}

#[test]
fn neutron_acl_translator_keeps_disjoint_cidrs_separate() {
    let acl = ready_acl(vec![
        acl_rule_with("tcp-left", 10, "tcp", "drop", &["10.1.0.0/16"], &[], None),
        acl_rule_with("udp-right", 20, "udp", "drop", &["10.2.0.0/16"], &[], None),
    ]);
    let plan = translate_neutron_acl_for_test("port-1", &acl).unwrap();
    assert_eq!(plan.groups.len(), 2);
    assert_eq!(plan.policies.len(), 2);
    assert_eq!(plan.force_bypass_reason, None);
}

#[test]
fn neutron_acl_force_bypass_outcome_overrides_optimistic_snapshot() {
    let acl = ready_acl(vec![
        acl_rule_with("wildcard", 10, "any", "allow", &[], &[], None),
        acl_rule_with("tcp-drop", 20, "tcp", "drop", &[], &[], None),
    ]);
    let plan = translate_neutron_acl_for_test("port-1", &acl).unwrap();
    let outcome = NeutronAclReconcileOutcome::from_plan(&plan);
    let mut snapshot = port("port-1", "tap-port-1", true);
    snapshot.managed_domains = vec!["acl".to_string()];
    snapshot.acl = Some(acl);

    let status = outcome.domain_status(&snapshot);
    assert_eq!(status.status, "degraded");
    assert_eq!(status.effective_action.as_deref(), Some("bypass"));
    assert_eq!(
        status.reason.as_deref(),
        Some("unsupported_acl_priority_overlap:wildcard:10:tcp-drop:20")
    );
}

#[test]
fn neutron_acl_translator_carries_conntrack_intent() {
    let stateful = ready_acl(vec![tcp_rule("drop-8080", "drop", 8080)]);
    assert_eq!(
        translate_neutron_acl_for_test("port-1", &stateful)
            .expect("stateful ACL should translate")
            .conntrack_enabled,
        Some(true)
    );

    let mut stateless = stateful;
    stateless.stateful = false;
    assert_eq!(
        translate_neutron_acl_for_test("port-1", &stateless)
            .expect("stateless ACL should translate")
            .conntrack_enabled,
        Some(false)
    );

    assert_eq!(AclApplyPlan::default().conntrack_enabled, None);
}

#[test]
fn neutron_acl_runtime_transition_is_atomic() {
    let policy = AclPolicyPlan {
        src_group: "any".to_string(),
        dst_group: "any".to_string(),
        proto: 6,
        action: 1,
        direction: 1,
        ports: Some("8080".to_string()),
    };
    let quiesced = AclRuntimeFeatureState {
        conntrack_enabled: false,
        acl_enabled: false,
        acl_ingress_hook: ACL_INGRESS_HOOK_TC,
    };

    let stateful = acl_runtime_transition(
        &AclApplyPlan {
            groups: Vec::new(),
            policies: vec![policy.clone()],
            conntrack_enabled: Some(true),
            force_bypass_reason: None,
        },
        false,
    );
    assert_eq!(stateful.quiesce, quiesced);
    assert_eq!(
        stateful.publish,
        AclRuntimeFeatureState {
            conntrack_enabled: true,
            acl_enabled: true,
            acl_ingress_hook: ACL_INGRESS_HOOK_TC,
        }
    );

    let stateless = acl_runtime_transition(
        &AclApplyPlan {
            groups: Vec::new(),
            policies: vec![policy],
            conntrack_enabled: Some(false),
            force_bypass_reason: None,
        },
        true,
    );
    assert_eq!(stateless.quiesce, quiesced);
    assert_eq!(
        stateless.publish,
        AclRuntimeFeatureState {
            conntrack_enabled: false,
            acl_enabled: true,
            acl_ingress_hook: ACL_INGRESS_HOOK_TC,
        }
    );

    let empty_stateful = acl_runtime_transition(
        &AclApplyPlan {
            groups: Vec::new(),
            policies: Vec::new(),
            conntrack_enabled: Some(true),
            force_bypass_reason: None,
        },
        false,
    );
    assert_eq!(empty_stateful.quiesce, quiesced);
    assert_eq!(
        empty_stateful.publish,
        AclRuntimeFeatureState {
            conntrack_enabled: true,
            acl_enabled: false,
            acl_ingress_hook: ACL_INGRESS_HOOK_TC,
        }
    );

    let missing_payload = acl_runtime_transition(&AclApplyPlan::default(), true);
    assert_eq!(missing_payload.quiesce, quiesced);
    assert_eq!(
        missing_payload.publish,
        AclRuntimeFeatureState {
            conntrack_enabled: true,
            acl_enabled: false,
            acl_ingress_hook: ACL_INGRESS_HOOK_TC,
        }
    );
}

#[test]
fn managed_projection_repair_quiesced_replace_uses_publish_tc_requirement() {
    let transition = acl_runtime_transition(
        &AclApplyPlan {
            groups: Vec::new(),
            policies: Vec::new(),
            conntrack_enabled: Some(true),
            force_bypass_reason: None,
        },
        false,
    );

    assert!(!acl_runtime_feature_requires_tc(transition.quiesce));
    assert!(acl_runtime_feature_requires_tc(transition.publish));
}

#[test]
fn neutron_acl_translator_force_bypasses_conflicting_actions_for_same_tuple() {
    let mut allow_18081 = tcp_rule("allow-18081", "allow", 18081);
    allow_18081.priority = 101;
    let acl = ready_acl(vec![
        tcp_rule("drop-8080", "drop", 8080),
        allow_18081,
    ]);

    let plan = translate_neutron_acl_for_test("port-1", &acl).unwrap();

    assert!(plan.groups.is_empty());
    assert!(plan.policies.is_empty());
    assert_eq!(
        plan.force_bypass_reason.as_deref(),
        Some("unsupported_acl_priority_overlap:drop-8080:100:allow-18081:101")
    );
}

#[test]
fn neutron_acl_translator_builds_drop_icmp_policy() {
    let acl = ready_acl(vec![NeutronAclRuleSnapshot {
        id: Some("drop-icmp".to_string()),
        direction: Some("ingress".to_string()),
        priority: 100,
        action: Some("drop".to_string()),
        ethertype: Some("IPv4".to_string()),
        protocol: Some("icmp".to_string()),
        src_cidrs: vec!["192.0.2.2/32".to_string()],
        dst_cidrs: Vec::new(),
        src_port_min: None,
        src_port_max: None,
        dst_port_min: None,
        dst_port_max: None,
    }]);

    let plan =
        translate_neutron_acl_for_test("port-1", &acl).expect("ACL should translate");

    assert_eq!(
        plan.groups,
        vec![AclGroupPlan {
            name: "neutron:port-1:src:selector:0".to_string(),
            cidrs: vec!["192.0.2.2/32".to_string()],
        }]
    );
    assert_eq!(
        plan.policies,
        vec![AclPolicyPlan {
            src_group: "neutron:port-1:src:selector:0".to_string(),
            dst_group: "any".to_string(),
            proto: 1,
            action: 1,
            direction: 1,
            ports: None,
        }]
    );
}

#[test]
fn neutron_acl_translator_rejects_default_deny_until_owned_defaults_exist() {
    let acl = NeutronAclSnapshot {
        enabled: true,
        status: "ready".to_string(),
        reason: "ready".to_string(),
        effective_action: "enforce".to_string(),
        policy_id: Some("acl-policy".to_string()),
        policy_name: None,
        binding_id: None,
        source: Some("port".to_string()),
        default_action: "deny".to_string(),
        stateful: true,
        revision: 1,
        rules: Vec::new(),
        content_payload: EncodedPayload::Json(Vec::new()),
    };

    let error = translate_neutron_acl_for_test("port-1", &acl)
        .expect_err("default deny is guarded");

    assert!(error.contains("default_action deny is unsupported"));
}

#[test]
fn neutron_acl_gate_mode_disables_before_every_replacement() {
    assert_eq!(
        acl_gate_update_mode(&AclApplyPlan::default()),
        AclGateUpdateMode::DisableBeforeReplace
    );

    let plan = AclApplyPlan {
        groups: vec![AclGroupPlan {
            name: "neutron:port-1:src:selector:0".to_string(),
            cidrs: vec!["192.0.2.2/32".to_string()],
        }],
        policies: vec![AclPolicyPlan {
            src_group: "neutron:port-1:src:selector:0".to_string(),
            dst_group: "any".to_string(),
            proto: 1,
            action: 1,
            direction: 1,
            ports: None,
        }],
        conntrack_enabled: Some(true),
        force_bypass_reason: None,
    };

    assert_eq!(
        acl_gate_update_mode(&plan),
        AclGateUpdateMode::DisableBeforeReplace
    );
}

#[test]
fn neutron_acl_reconcile_failure_phase_reports_the_proven_effective_action() {
    let pre_disable = acl_reconcile_error(AclReconcileFailurePhase::BeforeQuiesce, "x");
    assert_eq!(pre_disable.effective_action, "unchanged");

    let post_disable = acl_reconcile_error(AclReconcileFailurePhase::AfterQuiesce, "x");
    assert_eq!(post_disable.effective_action, "bypass");

    let compensation =
        acl_reconcile_error(AclReconcileFailurePhase::CompensationFailed, "x");
    assert_eq!(compensation.effective_action, "enforce");
}

#[test]
fn managed_projection_repair_fatal_after_quiesce_keeps_gate_in_bypass() {
    let transition = acl_runtime_transition(&AclApplyPlan::default(), true);
    let error = acl_reconcile_error(
        AclReconcileFailurePhase::AfterQuiesce,
        "unknown active selector",
    );

    assert!(!transition.quiesce.conntrack_enabled);
    assert!(!transition.quiesce.acl_enabled);
    assert_eq!(error.effective_action, "bypass");
    assert!(error.details.contains("unknown active selector"));
}

#[test]
fn priority_faults_are_reported_before_selectors_are_read() {
    let negative = [
        normalized_acl_rule_with_selectors("first", 10, 6, 7, 7),
        normalized_acl_rule_with_selectors("second", -1, 6, 8, 8),
    ];
    assert_eq!(
        acl_priority_overlap_reason(&negative, &[], &[]),
        Some("invalid_acl_priority:second:-1".to_string())
    );
    let repeated = [
        normalized_acl_rule_with_selectors("first", 10, 6, 7, 7),
        normalized_acl_rule_with_selectors("second", 20, 6, 8, 8),
        normalized_acl_rule_with_selectors("third", 10, 17, 9, 9),
        normalized_acl_rule_with_selectors("fourth", -5, 17, 9, 9),
    ];
    assert_eq!(
        acl_priority_overlap_reason(&repeated, &[], &[]),
        Some("duplicate_acl_priority:egress:10:first:third".to_string())
    );
}

#[test]
fn reordered_rules_are_reported_alike() {
    let selectors = vec![
        Vec::new(),
        vec![AclIpv4Cidr::parse("10.0.0.0/8").unwrap()],
        vec![AclIpv4Cidr::parse("10.1.0.0/16").unwrap()],
        vec![AclIpv4Cidr::parse("192.0.2.0/24").unwrap()],
    ];
    let rule = |id: &str, priority: i64, place: usize| {
        normalized_acl_rule_with_selectors(id, priority, 6, place, 0)
    };
    let any = [Vec::new()];
    let wanted = Some("unsupported_acl_cidr_overlap:src:a:10:c:30".to_string());
    for rules in [
        [rule("a", 10, 1), rule("b", 20, 3), rule("c", 30, 2)],
        [rule("c", 30, 2), rule("b", 20, 3), rule("a", 10, 1)],
        [rule("b", 20, 3), rule("c", 30, 2), rule("a", 10, 1)],
    ] {
        assert_eq!(acl_priority_overlap_reason(&rules, &selectors, &any), wanted);
    }
}

#[test]
fn refusals_count_as_unsupported() {
    let selectors = vec![
        Vec::new(),
        vec![AclIpv4Cidr::parse("10.0.0.0/8").unwrap()],
        vec![AclIpv4Cidr::parse("10.1.0.0/16").unwrap()],
    ];
    let any = [Vec::new()];
    let overlap = [
        normalized_acl_rule_with_selectors("a", 10, 6, 1, 0),
        normalized_acl_rule_with_selectors("b", 20, 6, 2, 0),
    ];
    let mut drop = normalized_acl_rule_with_selectors("b", 20, 0, 0, 0);
    drop.action = 0;
    let clash = [normalized_acl_rule_with_selectors("a", 10, 6, 0, 0), drop];
    let many = ready_acl(numbered_acl_rules(MAX_ACL_RULES_PER_POLICY + 1));
    let mut wide = acl_rule_with("wide", 1, "tcp", "drop", &[], &[], None);
    wide.dst_cidrs = numbered_acl_members(MAX_ACL_SELECTOR_MEMBERS + 1);
    for reason in [
        acl_priority_overlap_reason(&overlap, &selectors, &any).unwrap(),
        acl_priority_overlap_reason(&clash, &any, &any).unwrap(),
        acl_runtime_limit_reason(&many).unwrap(),
        acl_runtime_limit_reason(&ready_acl(vec![wide])).unwrap(),
        blocked_by_unimplemented_domains(&vec!["qos".to_string()]),
        unimplemented_domain_reason("qos"),
        unimplemented_domain_reason(""),
    ] {
        assert!(status_v1_reason_is_unsupported(Some(&reason)), "{reason}");
        assert!(!status_v1_reason_requires_full_resync(Some(&reason)), "{reason}");
    }
    assert!(!status_v1_reason_is_unsupported(None));
}

#[test]
fn cached_checks_give_what_checks_give() {
    let acls = [
        ready_acl(vec![tcp_rule("drop-80", "drop", 80)]),
        ready_acl(vec![tcp_rule("drop-443", "drop", 443)]),
        ready_acl(numbered_acl_rules(MAX_ACL_RULES_PER_POLICY + 1)),
    ];
    let mut cache = AclValidationCache::default();
    for _ in 0..2 {
        for acl in &acls {
            assert_eq!(
                cached_neutron_acl_template(acl, &mut cache),
                validate_neutron_acl_template(acl)
            );
        }
    }
    assert_eq!((cache.hits, cache.misses), (3, 3));
}

#[test]
fn selectors_are_found_behind_the_first_place() {
    let ten = vec![AclIpv4Cidr::parse("10.0.0.0/8").unwrap()];
    let doc = vec![AclIpv4Cidr::parse("192.0.2.0/24").unwrap()];
    let table = vec![Vec::new(), ten.clone(), doc.clone()];
    assert_eq!(acl_selector_id(&ten, &table), AclSelectorId(1));
    assert_eq!(acl_selector_id(&doc, &table), AclSelectorId(2));
    assert_eq!(acl_selector_id(&[], &[]), AclSelectorId(0));
    assert_eq!(acl_selector_id(&[], &[ten.clone(), ten.clone()]), AclSelectorId(0));
    assert_eq!(acl_selector_id(&ten, &[ten.clone(), doc, ten.clone()]), AclSelectorId(2));
}
