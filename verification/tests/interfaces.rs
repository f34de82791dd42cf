use netband::interfaces::{
    FairInterfaceSelector, InterfaceAddress, InterfaceError, ResolvedInterface,
    resolve_configured_with, resolve_from,
};
use netband::model::IpAddr;

fn v4(a: u8, b: u8, c: u8, d: u8) -> IpAddr {
    IpAddr::V4(u32::from_be_bytes([a, b, c, d]))
}

fn documentation_v6(last: u128) -> IpAddr {
    IpAddr::V6(0x2001_0db8_0000_0000_0000_0000_0000_0000 + last)
}

fn interface(name: &str, address: IpAddr, up: bool) -> InterfaceAddress {
    InterfaceAddress { name: name.to_owned(), up, address }
}

fn names(values: &[&str]) -> Vec<String> {
    values.iter().map(|value| (*value).to_owned()).collect()
}

#[test]
fn missing_interfaces_are_not_confused_with_similar_names() {
    for snapshot in [
        vec![],
        vec![interface("eth01", v4(192, 0, 2, 1), true)],
        vec![interface("ETH0", v4(192, 0, 2, 1), true)],
    ] {
        assert_eq!(
            resolve_from("eth0", &snapshot),
            Err(InterfaceError::Missing { name: "eth0".into() })
        );
    }
}

#[test]
fn every_non_operational_status_is_down_even_with_an_address() {
    assert_eq!(
        resolve_from(
            "eth0",
            &vec![
                interface("eth0", v4(192, 0, 2, 1), false),
                interface("other", v4(192, 0, 2, 2), true),
            ]
        ),
        Err(InterfaceError::Down { name: "eth0".into() })
    );
}

#[test]
fn unspecified_and_down_addresses_cannot_supply_an_up_interface() {
    assert_eq!(
        resolve_from(
            "eth0",
            &vec![
                interface("eth0", v4(0, 0, 0, 0), true),
                interface("eth0", IpAddr::V6(0), true),
                interface("eth0", v4(192, 0, 2, 1), false),
                interface("eth0", documentation_v6(1), false),
            ]
        ),
        Err(InterfaceError::Addressless { name: "eth0".into() })
    );
}

#[test]
fn dual_stack_addresses_are_filtered_sorted_and_deduplicated_independent_of_discovery_order() {
    let entries = [
        ("eth0", documentation_v6(2), true),
        ("eth0", v4(192, 0, 2, 2), true),
        ("eth0", v4(192, 0, 2, 1), true),
        ("eth0", documentation_v6(1), true),
        ("eth0", v4(192, 0, 2, 2), true),
        ("eth0", documentation_v6(1), true),
        ("eth0", v4(0, 0, 0, 0), true),
        ("eth0", IpAddr::V6(0), true),
        ("eth0", v4(192, 0, 2, 3), false),
        ("other", v4(192, 0, 2, 4), true),
    ];
    for shift in 0..entries.len() {
        let mut reordered = entries;
        reordered.rotate_left(shift);
        let snapshot: Vec<InterfaceAddress> = reordered
            .iter()
            .map(|(name, address, up)| interface(name, *address, *up))
            .collect();
        assert_eq!(
            resolve_from("eth0", &snapshot),
            Ok(ResolvedInterface {
                name: "eth0".into(),
                addresses: vec![
                    v4(192, 0, 2, 1),
                    v4(192, 0, 2, 2),
                    documentation_v6(1),
                    documentation_v6(2),
                ],
            })
        );
    }
}

#[test]
fn loopback_and_link_local_addresses_remain_available_for_bound_probes() {
    for address in [
        v4(127, 0, 0, 1),
        IpAddr::V6(1),
        v4(169, 254, 1, 2),
        IpAddr::V6(0xfe80_0000_0000_0000_0000_0000_0000_0001),
    ] {
        let resolved = resolve_from("local", &vec![interface("local", address, true)]).unwrap();
        assert_eq!(resolved.addresses, [address]);
    }
}

#[test]
fn default_route_does_not_require_interface_discovery() {
    assert_eq!(
        resolve_configured_with(&vec![], || panic!("default route must not inspect interfaces")),
        Ok(vec![])
    );
}

#[test]
fn configured_order_uses_one_snapshot_and_fails_without_partial_results() {
    let snapshot = || {
        Ok(vec![
            interface("a", v4(192, 0, 2, 1), true),
            interface("b", v4(192, 0, 2, 2), true),
        ])
    };
    let resolved = resolve_configured_with(&names(&["b", "a"]), snapshot).unwrap();
    assert_eq!(
        resolved
            .iter()
            .map(|interface| interface.name.as_str())
            .collect::<Vec<_>>(),
        ["b", "a"]
    );
    assert_eq!(resolved[0].addresses, [v4(192, 0, 2, 2)]);
    assert_eq!(resolved[1].addresses, [v4(192, 0, 2, 1)]);
    assert_eq!(
        resolve_configured_with(&names(&["a", "missing", "b"]), snapshot),
        Err(InterfaceError::Missing { name: "missing".into() })
    );
}

#[test]
fn discovery_errors_preserve_the_cause_instead_of_claiming_an_interface_is_missing() {
    let error = resolve_configured_with(&names(&["eth0"]), || {
        Err("interface enumeration denied".to_owned())
    })
    .unwrap_err();
    assert_eq!(
        error,
        InterfaceError::Inspect { message: "interface enumeration denied".into() }
    );
    assert_eq!(
        error.message(),
        "cannot inspect network interfaces: interface enumeration denied"
    );
}

#[test]
fn interface_errors_name_the_interface() {
    assert_eq!(
        InterfaceError::Missing { name: "eth0".into() }.message(),
        "network interface does not exist: eth0"
    );
    assert_eq!(
        InterfaceError::Down { name: "eth0".into() }.message(),
        "network interface is not up: eth0"
    );
    assert_eq!(
        InterfaceError::Addressless { name: "eth0".into() }.message(),
        "network interface has no usable source address: eth0"
    );
}

#[test]
fn selector_handles_empty_and_unknown_eligibility_without_consuming_a_turn() {
    let eligible = names(&["unknown"]);
    assert_eq!(FairInterfaceSelector::new(&vec![]).select(&eligible), None);
    let mut selector = FairInterfaceSelector::new(&names(&["b", "a"]));
    assert_eq!(selector.select(&vec![]), None);
    assert_eq!(selector.select(&eligible), None);
    selector.record_attempt("unknown");
    assert_eq!(selector.attempts("unknown"), 0);
    let eligible = names(&["a", "b", "unknown"]);
    for _ in 0..3 {
        assert_eq!(selector.select(&eligible), Some("b"));
        assert_eq!(selector.attempts("b"), 0);
    }
}

#[test]
fn equal_attempts_prefer_the_least_recent_turn_over_configuration_order() {
    let mut selector = FairInterfaceSelector::new(&names(&["a", "b"]));
    let eligible = names(&["a", "b"]);
    selector.record_attempt("b");
    selector.record_attempt("a");
    assert_eq!(selector.select(&eligible), Some("b"));
    selector.record_attempt("b");
    assert_eq!(selector.select(&eligible), Some("a"));
}

#[test]
fn recovered_interfaces_catch_up_without_selecting_ineligible_ones() {
    let mut selector = FairInterfaceSelector::new(&names(&["a", "b"]));
    let only_a = names(&["a"]);
    for _ in 0..3 {
        assert_eq!(selector.select(&only_a), Some("a"));
        selector.record_attempt("a");
    }
    let both = names(&["a", "b"]);
    for _ in 0..3 {
        assert_eq!(selector.select(&both), Some("b"));
        selector.record_attempt("b");
    }
    assert_eq!(selector.attempts("a"), selector.attempts("b"));
    assert_eq!(selector.select(&both), Some("a"));
}

#[test]
fn turns_stay_level_over_many_attempts() {
    let all = names(&["a", "b", "c"]);
    let mut selector = FairInterfaceSelector::new(&all);
    for turn in 0..30u64 {
        let chosen = selector.select(&all).unwrap().to_owned();
        selector.record_attempt(&chosen);
        for name in &all {
            let attempts = selector.attempts(name);
            assert!(attempts == (turn + 1) / 3 || attempts == (turn + 1) / 3 + 1);
        }
    }
}

#[test]
fn turns_go_round_in_the_configured_order() {
    let mut selector = FairInterfaceSelector::new(&names(&["d", "a", "c", "b"]));
    let eligible = names(&["b", "c", "d"]);
    let mut chosen = Vec::new();
    for _ in 0..8 {
        let name = selector.select(&eligible).unwrap().to_owned();
        selector.record_attempt(&name);
        chosen.push(name);
    }
    assert_eq!(chosen, ["d", "c", "b", "d", "c", "b", "d", "c"]);
    let attempts: Vec<u64> =
        ["d", "c", "b", "a"].iter().map(|name| selector.attempts(name)).collect();
    assert_eq!(attempts, [3, 3, 2, 0]);
}
