use neutron_agent::acl_ports::{
    merge_acl_ports, parse_acl_port_ranges, serialize_acl_port_ranges,
};
use neutron_agent::acl_rules::{
    acl_rule_id, action_from_string, direction_from_string, normalize_acl_rule, proto_from_string,
};
use neutron_agent::counters::{
    build_neutron_counters_section, counter_ports, CountersStep, NeutronCounterBucketV1,
    PortCounterSummary, NEUTRON_COUNTERS_SCHEMA_VERSION,
    NEUTRON_MAX_COUNTER_BUCKET_ROWS_PER_PORT,
};
use neutron_agent::domains::{name_domain, normalize_managed_domains};
use neutron_agent::inventory::{
    elapsed_ms, guess_tap_name, is_compute_owner, is_normal_vnic, is_ovs_vif, ovs_command_failure,
    parse_bridge_ports, parse_ifindex, parse_ovs_external_ids, parse_ovs_rows, parse_ovs_table,
    read_tree, remaining_ovs_inventory_time, JsonTree, LocalInterfaceInventory, OvsRow,
};
use neutron_agent::model::{ManagedNeutronPort, NeutronAclRuleSnapshot};
use neutron_agent::ordered::OrderedMap;
use neutron_agent::payload::{digest_text, stable_json_hash, EncodedPayload};
use neutron_agent::scope::{
    apply_scope_name, apply_scope_port_id, snapshot_schema_apply_error, snapshot_scope_apply_error,
    ApplyScope, ReplyStatus, SnapshotScopeError,
};
use neutron_agent::text::{
    contains_text, ends_with, hex_text, i64_text, join, parse_digits, split, starts_with, text_eq,
    text_eq_ignore_case, text_order, trim, Order,
};

fn text(value: &str) -> JsonTree {
    JsonTree::Text(value.to_string())
}

fn pair(key: &str, value: &str) -> JsonTree {
    JsonTree::List(vec![text(key), text(value)])
}

#[test]
fn payload_hashes_are_those_of_their_bytes() {
    assert_eq!(
        stable_json_hash(&EncodedPayload::Json(b"null".to_vec())),
        "sha256:74234e98afe7498fb5daf1f36ac2d78acc339464f950703b8c019892f982b90b"
    );
    assert_eq!(
        stable_json_hash(&EncodedPayload::Json(Vec::new())),
        "sha256:e3b0c44298fc1c149afbf4c8996fb92427ae41e4649b934ca495991b7852b855"
    );
    assert_eq!(
        stable_json_hash(&EncodedPayload::Unencodable("depth".to_string())),
        stable_json_hash(&EncodedPayload::Json(b"serialization_error:depth".to_vec()))
    );
    assert_eq!(digest_text(&vec![0, 15, 255]), "sha256:000fff");
}

const TABLE: &str = r#"{
    "headings": ["name", "external_ids"],
    "data": [
        ["tap-a", ["map", [["iface-id", "port-a"], ["attached-mac", "fa:16:3e:00:00:01"]]]],
        ["tap-b", ["map", []]],
        [7, ["map", [["iface-id", "port-c"]]]],
        ["tap-d"],
        "stray"
    ]
}"#;

#[test]
fn interface_tables_are_read() {
    assert_eq!(
        parse_ovs_rows(TABLE).unwrap(),
        vec![
            OvsRow { name: "tap-a".to_string(), iface_id: Some("port-a".to_string()) },
            OvsRow { name: "tap-b".to_string(), iface_id: None },
            OvsRow { name: "tap-d".to_string(), iface_id: None },
        ]
    );
}

#[test]
fn broken_interface_tables_are_refused() {
    assert!(parse_ovs_rows("{").unwrap_err().starts_with("parse ovs-vsctl json: "));
    for (payload, error) in [
        ("{}", "ovs json missing headings"),
        (r#"{"headings": 1, "data": []}"#, "ovs json missing headings"),
        (r#"{"headings": []}"#, "ovs json missing data"),
        (r#"{"headings": [], "data": []}"#, "ovs json missing name heading"),
        (
            r#"{"headings": ["name"], "data": []}"#,
            "ovs json missing external_ids heading",
        ),
    ] {
        assert_eq!(parse_ovs_rows(payload).unwrap_err(), error, "{payload}");
    }
}

#[test]
fn tables_are_read_by_their_last_heading() {
    let headings = vec![text("name"), text("external_ids"), text("name")];
    let ids = JsonTree::List(vec![
        text("map"),
        JsonTree::List(vec![pair("iface-id", "port-a"), text("stray")]),
    ]);
    let data = vec![JsonTree::List(vec![text("first"), ids, text("last")])];
    assert_eq!(
        parse_ovs_table(&headings, &data).unwrap(),
        vec![OvsRow { name: "last".to_string(), iface_id: Some("port-a".to_string()) }]
    );
}

#[test]
fn external_ids_are_maps_of_strings() {
    let map = JsonTree::List(vec![
        text("map"),
        JsonTree::List(vec![
            pair("a", "1"),
            JsonTree::List(vec![text("b"), JsonTree::Other]),
            pair("a", "2"),
        ]),
    ]);
    let ids = parse_ovs_external_ids(&map);
    assert_eq!(ids.len(), 1);
    assert_eq!(ids.get_text("a").map(String::as_str), Some("2"));
    let set = JsonTree::List(vec![text("set"), JsonTree::List(vec![pair("a", "1")])]);
    assert!(parse_ovs_external_ids(&set).is_empty());
    assert!(parse_ovs_external_ids(&JsonTree::Other).is_empty());
}

#[test]
fn trees_are_cut_at_their_depth() {
    assert_eq!(read_tree(r#"["a", 1, ["b"]]"#, 3), JsonTree::List(vec![
        text("a"),
        JsonTree::Other,
        JsonTree::List(vec![text("b")]),
    ]));
    assert_eq!(
        read_tree(r#"["a"]"#, 1),
        JsonTree::List(vec![JsonTree::Other])
    );
    assert_eq!(read_tree(r#""é\n""#, 1), text("\u{e9}\n"));
    assert_eq!(read_tree("{", 3), JsonTree::Other);
}

#[test]
fn inventories_know_the_bridge_and_the_index_of_an_interface() {
    let bridge_ports = parse_bridge_ports("tap-a\n\n  tap-x \n");
    let mut ifindexes = OrderedMap::new();
    ifindexes.insert("tap-a".to_string(), 11);
    let inventory =
        LocalInterfaceInventory::from_ovs_json("br-int", &bridge_ports, TABLE, ifindexes).unwrap();

    assert!(inventory.is_authoritative());
    let a = inventory.by_iface_id.get_text("port-a").unwrap();
    assert_eq!(a.name, "tap-a");
    assert_eq!(a.ifindex, Some(11));
    assert_eq!(a.bridge.as_deref(), Some("br-int"));
    let b = inventory.by_name.get_text("tap-b").unwrap();
    assert_eq!(b.ifindex, None);
    assert_eq!(b.bridge, None);
    assert_eq!(inventory.by_iface_id.len(), 1);
    assert_eq!(inventory.by_name.len(), 3);
    assert!(bridge_ports.get_text("tap-x").is_some());

    let offline = LocalInterfaceInventory::unavailable(
        "br-int",
        "permission denied".to_string(),
        OrderedMap::new(),
    );
    assert!(!offline.is_authoritative());
}

#[test]
fn host_values_are_read() {
    assert_eq!(parse_ifindex(" 17\n"), Some(17));
    assert_eq!(parse_ifindex("0"), None);
    assert_eq!(parse_ifindex("-1"), None);
    assert_eq!(parse_ifindex("4294967295"), Some(4294967295));
    assert_eq!(parse_ifindex("4294967296"), None);
    assert_eq!(guess_tap_name("e607e86b-9e5f-4c63"), "tape607e86b-9e");
    assert_eq!(guess_tap_name(""), "");
    assert_eq!(remaining_ovs_inventory_time(100, 40, "list-ports"), Ok(60));
    assert_eq!(
        remaining_ovs_inventory_time(100, 100, "list-ports"),
        Err("ovs-vsctl list-ports timed out".to_string())
    );
    assert_eq!(elapsed_ms(12), 12);
    assert_eq!(elapsed_ms(u128::MAX), u64::MAX);
    assert!(ovs_command_failure("list-ports", " denied \n").contains("denied"));
}

#[test]
fn port_kinds_are_told_apart() {
    assert!(is_compute_owner(None) && is_compute_owner(Some("")));
    assert!(is_compute_owner(Some("compute:nova")));
    assert!(!is_compute_owner(Some("network:dhcp")));
    assert!(is_ovs_vif(None) && is_ovs_vif(Some("ovs")) && !is_ovs_vif(Some("vhostuser")));
    assert!(is_normal_vnic(Some("normal")) && !is_normal_vnic(Some("direct")));
}

#[test]
fn port_ranges_are_merged() {
    assert_eq!(
        parse_acl_port_ranges("80, 443,1000-2000"),
        Ok(vec![(80, 80), (443, 443), (1000, 2000)])
    );
    assert_eq!(parse_acl_port_ranges("80,all"), Ok(Vec::new()));
    for (ports, error) in [
        ("80:drop", "port action suffix is unsupported in Neutron ACL port merge: 80:drop"),
        ("x", "invalid port x"),
        ("a-2", "invalid port range start in a-2"),
        ("1-b", "invalid port range end in 1-b"),
        ("1-2-3", "invalid port range format 1-2-3"),
        ("9-8", "invalid port range 9-8"),
    ] {
        assert_eq!(parse_acl_port_ranges(ports).unwrap_err(), error);
    }
    assert_eq!(
        serialize_acl_port_ranges(vec![(20, 30), (10, 12), (13, 15), (25, 40)]),
        Some("10-15,20-40".to_string())
    );
    assert_eq!(serialize_acl_port_ranges(Vec::new()), None);
    let some = |ports: &str| Some(ports.to_string());
    assert_eq!(merge_acl_ports(some("8080"), some("18081,80")), Ok(some("80,8080,18081")));
    assert_eq!(merge_acl_ports(some("8080"), None), Ok(None));
    assert_eq!(merge_acl_ports(some("all"), some("80")), Ok(None));
    assert_eq!(merge_acl_ports(some("8080"), some("x")), Err("invalid port x".to_string()));
}

fn rule() -> NeutronAclRuleSnapshot {
    NeutronAclRuleSnapshot {
        id: Some("rule/1".to_string()),
        direction: None,
        priority: 1,
        action: None,
        ethertype: None,
        protocol: None,
        src_cidrs: Vec::new(),
        dst_cidrs: Vec::new(),
        src_port_min: None,
        src_port_max: None,
        dst_port_min: None,
        dst_port_max: None,
    }
}

#[test]
fn rules_are_parsed_with_their_defaults() {
    let parsed = normalize_acl_rule(&rule(), 0).unwrap();
    assert_eq!(parsed.proto, 0);
    assert_eq!(parsed.action, 0);
    assert_eq!(parsed.direction, "ingress");
    assert_eq!(parsed.ports, Vec::new());
    assert_eq!(parsed.id, acl_rule_id(&rule(), 0));
    assert_eq!(proto_from_string("icmp"), Ok(1));
    assert_eq!(action_from_string("drop"), Ok(1));
    assert!(direction_from_string("sideways").is_err());
}

#[test]
fn rules_the_datapath_cannot_express_are_refused() {
    let id = acl_rule_id(&rule(), 0);
    let mut ipv6 = rule();
    ipv6.ethertype = Some("ipv6".to_string());
    assert!(normalize_acl_rule(&ipv6, 0).unwrap_err().contains("uses IPv6 ethertype"));
    let mut source = rule();
    source.src_port_min = Some(1);
    assert!(normalize_acl_rule(&source, 0).unwrap_err().contains("source port matching"));
    let mut portless = rule();
    portless.dst_port_min = Some(80);
    assert!(normalize_acl_rule(&portless, 0).unwrap_err().contains("only tcp/udp"));
    let mut backwards = rule();
    backwards.protocol = Some("tcp".to_string());
    backwards.dst_port_min = Some(90);
    backwards.dst_port_max = Some(80);
    assert_eq!(
        normalize_acl_rule(&backwards, 0).unwrap_err(),
        format!("rule {id} has invalid destination port range 90-80")
    );
    let mut unknown = rule();
    unknown.protocol = Some("carrier-pigeon".to_string());
    assert_eq!(
        normalize_acl_rule(&unknown, 0).unwrap_err(),
        format!("rule {id} protocol: unknown protocol: carrier-pigeon")
    );
}

#[test]
fn domains_have_one_name() {
    assert_eq!(name_domain(" Aria-ACL "), "acl");
    assert_eq!(
        normalize_managed_domains(&vec![
            "QOS".to_string(),
            "acl".to_string(),
            "policy".to_string(),
            " ".to_string(),
        ]),
        vec!["acl".to_string(), "qos".to_string()]
    );
}

#[test]
fn scope_errors_carry_their_answer() {
    assert_eq!(apply_scope_name(&ApplyScope::FullHost), "full_host");
    assert_eq!(apply_scope_port_id(&ApplyScope::FullHost), None);
    let scope = ApplyScope::SinglePort("port-a".to_string());
    assert_eq!(apply_scope_port_id(&scope), Some("port-a"));
    let widened = snapshot_scope_apply_error(SnapshotScopeError::ScopeWidened {
        target: "port-a".to_string(),
        actual: "port-b".to_string(),
    });
    assert!(widened.details.contains("port-a") && widened.details.contains("port-b"));
    assert_eq!(snapshot_schema_apply_error(Some(9)).status, ReplyStatus::BadRequest);
}

#[test]
fn texts_are_compared_by_code_point() {
    assert!(matches!(text_order("a", "b"), Order::Before));
    assert!(matches!(text_order("a", "a"), Order::Same));
    assert!(matches!(text_order("\u{10000}", "\u{ffff}"), Order::After));
    assert!(text_eq("tap", "tap") && !text_eq("tap", "taps"));
    assert!(text_eq_ignore_case("Ready", "rEADY") && !text_eq_ignore_case("\u{c9}", "\u{e9}"));
    assert_eq!(trim("\u{2003} x\t"), "x");
    assert!(starts_with("tap-a", "tap") && ends_with("tap-a", "-a") && contains_text("abc", "b"));
    assert_eq!(split("a,,b", ','), vec!["a", "", "b"]);
    assert_eq!(join(&vec!["a".to_string(), "b".to_string()], ", "), "a, b");
    assert_eq!(i64_text(i64::MIN), "-9223372036854775808");
    assert_eq!(parse_digits("0042", 50), Some(42));
    assert_eq!(parse_digits("51", 50), None);
    assert_eq!(hex_text(&vec![171]), "ab");
}

fn bucket(src_id: u32, packets: u64) -> NeutronCounterBucketV1 {
    NeutronCounterBucketV1 {
        src_id,
        dst_id: 0,
        proto: 6,
        direction: 1,
        packets,
        bytes: packets * 64,
        dropped_packets: 0,
        dropped_bytes: 0,
    }
}

fn summary(tap_id: u32, buckets: Vec<NeutronCounterBucketV1>) -> PortCounterSummary {
    PortCounterSummary {
        tap_id,
        policy_packets: 3,
        policy_bytes: 192,
        policy_allow_packets: 2,
        policy_dropped_packets: 1,
        policy_dropped_bytes: 64,
        drop_packets: 4,
        drop_bytes: 256,
        truncated: false,
        buckets,
        reasons: Vec::new(),
    }
}

#[test]
fn counters_are_reported_for_managed_ports() {
    let mut ports = OrderedMap::new();
    ports.insert(
        "port-a".to_string(),
        ManagedNeutronPort {
            port_id: "port-a".to_string(),
            ifname: "tap-a".to_string(),
            ifindex: Some(4),
            managed_domains: Vec::new(),
            domain_desired_hashes: OrderedMap::new(),
        },
    );
    let mut tap_ids = OrderedMap::new();
    tap_ids.insert("tap-a".to_string(), 4);
    tap_ids.insert("tap-b".to_string(), 5);
    let by_tap = counter_ports(&ports, &tap_ids);
    assert_eq!(by_tap.get(&4).map(String::as_str), Some("port-a"));
    assert_eq!(by_tap.len(), 1);

    assert_eq!(
        build_neutron_counters_section(9, &by_tap, &None),
        CountersStep::Read(vec![4])
    );
    let report = |summaries| match build_neutron_counters_section(9, &by_tap, &Some(summaries)) {
        CountersStep::Report(report) => report,
        step => panic!("the counters are read: {step:?}"),
    };
    let failed = report(Err("map unavailable".to_string()));
    assert_eq!(failed.counters_error.as_deref(), Some("map unavailable"));
    assert!(failed.ports.is_empty());

    let counted = report(Ok(vec![
        summary(4, vec![bucket(1, 5), bucket(2, 9), bucket(3, 7)]),
        summary(6, Vec::new()),
    ]));
    assert_eq!(counted.counters_schema_version, NEUTRON_COUNTERS_SCHEMA_VERSION);
    assert_eq!(counted.sampled_at_ms, 9);
    assert_eq!(counted.counters_error, None);
    assert_eq!(counted.ports.len(), 1);
    assert_eq!(counted.ports[0].port_id, "port-a");
    assert_eq!(counted.ports[0].policy_allow_packets, 2);

    let many = (0..600).map(|i| bucket(i, i as u64)).collect();
    let cut = report(Ok(vec![summary(4, many)]));
    assert_eq!(
        cut.ports[0].buckets.len(),
        NEUTRON_MAX_COUNTER_BUCKET_ROWS_PER_PORT
    );
    let nothing = build_neutron_counters_section(9, &OrderedMap::new(), &None);
    match nothing {
        CountersStep::Report(report) => assert!(report.ports.is_empty()),
        step => panic!("no port is counted: {step:?}"),
    }
}
