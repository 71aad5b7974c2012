use tauri_plugins::models::InterfaceType;
use tauri_plugins::network::{
    apply_macos_primary_service_interface_type, assign_unique_ids, build_interfaces_from_entries_with_platform_details,
    macos_service_interface_type, mark_primary, normalize_interface_key, parse_ipv4, platform_interface_type_overrides,
    classify_interface, read_network_snapshot, record_windows_adapter, resolve_interface_type, sanitize_id, AddressEntry, HostPlatform, MacosPrimaryServiceInterface, PlatformDetailsMap,
    PlatformInterfaceDetails,
};

fn v4(name: &str, address: &str) -> AddressEntry {
    AddressEntry { name: name.to_string(), address: address.to_string(), ipv4: true }
}

fn v6(name: &str, address: &str) -> AddressEntry {
    AddressEntry { name: name.to_string(), address: address.to_string(), ipv4: false }
}

fn typed(t: InterfaceType) -> PlatformInterfaceDetails {
    PlatformInterfaceDetails { interface_type: Some(t), ..Default::default() }
}

fn build(entries: Vec<AddressEntry>) -> Vec<tauri_plugins::models::NetworkInterface> {
    build_interfaces_from_entries_with_platform_details(&entries, &PlatformDetailsMap::new(), HostPlatform::Other)
}

fn chinese(text: &[char]) -> String {
    text.iter().collect()
}

fn local_connection_name() -> String {
    chinese(&['\u{672c}', '\u{5730}', '\u{8fde}', '\u{63a5}'])
}

#[test]
fn platform_interface_types_classify_unknown_names() {
    let mut interface_types = PlatformDetailsMap::new();
    interface_types.insert("port-a".to_string(), typed(InterfaceType::Ethernet));
    interface_types.insert("port-b".to_string(), typed(InterfaceType::Wifi));

    let interfaces = build_interfaces_from_entries_with_platform_details(
        &vec![v4("port-a", "192.168.1.10"), v4("port-b", "192.168.1.11")],
        &interface_types,
        HostPlatform::Other,
    );

    assert_eq!(interfaces[0].name, "port-a");
    assert_eq!(interfaces[0].interface_type, InterfaceType::Ethernet);
    assert_eq!(interfaces[1].name, "port-b");
    assert_eq!(interfaces[1].interface_type, InterfaceType::Wifi);
}

#[test]
fn macos_en1_with_ip_is_wifi_like_logger_enrichment() {
    let mut interface_types = PlatformDetailsMap::new();
    interface_types.insert("en1".to_string(), typed(InterfaceType::Ethernet));

    let interfaces = build_interfaces_from_entries_with_platform_details(
        &vec![v4("en1", "192.168.1.11")],
        &interface_types,
        HostPlatform::MacOs,
    );

    assert_eq!(interfaces[0].interface_type, InterfaceType::Wifi);
}

#[test]
fn platform_interface_details_enrich_gateway_and_dns() {
    let mut interface_details = PlatformDetailsMap::new();
    interface_details.insert(
        "wlan".to_string(),
        PlatformInterfaceDetails {
            interface_type: Some(InterfaceType::Wifi),
            gateway: Some("192.168.1.1".to_string()),
            dns_servers: vec!["1.1.1.1".to_string(), "8.8.8.8".to_string()],
            ..Default::default()
        },
    );

    let interfaces = build_interfaces_from_entries_with_platform_details(
        &vec![v4("WLAN", "192.168.1.10")],
        &interface_details,
        HostPlatform::Other,
    );

    assert_eq!(interfaces[0].interface_type, InterfaceType::Wifi);
    assert_eq!(interfaces[0].gateway.as_deref(), Some("192.168.1.1"));
    assert_eq!(interfaces[0].dns_servers, vec!["1.1.1.1", "8.8.8.8"]);
    assert_eq!(interfaces[0].addresses.mac, None);
}

#[test]
fn unknown_platform_interface_type_does_not_mask_name_classification() {
    let mut interface_details = PlatformDetailsMap::new();
    interface_details.insert(
        "wlan".to_string(),
        PlatformInterfaceDetails {
            interface_type: Some(InterfaceType::Unknown),
            gateway: Some("192.168.1.1".to_string()),
            ..Default::default()
        },
    );

    let interfaces = build_interfaces_from_entries_with_platform_details(
        &vec![v4("WLAN", "192.168.1.10")],
        &interface_details,
        HostPlatform::Other,
    );

    assert_eq!(interfaces[0].interface_type, InterfaceType::Wifi);
    assert_eq!(interfaces[0].gateway.as_deref(), Some("192.168.1.1"));
}

#[test]
fn macos_primary_service_type_overrides_generic_en_name() {
    let mut interface_details = PlatformDetailsMap::new();
    interface_details.insert("en5".to_string(), typed(InterfaceType::Ethernet));

    apply_macos_primary_service_interface_type(
        &mut interface_details,
        MacosPrimaryServiceInterface {
            bsd_name: "en5".to_string(),
            hardware: Some("AirPort".to_string()),
            interface_type: Some("IEEE80211".to_string()),
        },
    );

    let interfaces = build_interfaces_from_entries_with_platform_details(
        &vec![v4("en5", "192.168.1.12")],
        &interface_details,
        HostPlatform::Other,
    );

    assert_eq!(interfaces[0].interface_type, InterfaceType::Wifi);
}

#[test]
fn platform_interface_type_overrides_match_adapter_guids_case_insensitively() {
    let interface_types = platform_interface_type_overrides(Some("{ABCDEF00-1111-2222-3333-444444444444}"), Some(71));

    let interfaces = build_interfaces_from_entries_with_platform_details(
        &vec![v4("abcdef00-1111-2222-3333-444444444444", "192.168.1.10"), v4("other-adapter", "10.0.0.2")],
        &interface_types,
        HostPlatform::Other,
    );

    assert_eq!(interfaces[0].interface_type, InterfaceType::Wifi);
    assert_ne!(interfaces[1].interface_type, InterfaceType::Wifi);
}

#[test]
fn aggregates_addresses_for_same_interface() {
    let interfaces = build(vec![v4("en0", "192.168.1.10"), v6("en0", "::1")]);

    assert_eq!(interfaces.len(), 1);
    assert_eq!(interfaces[0].id, "if_en0");
    assert_eq!(interfaces[0].addresses.ipv4, vec!["192.168.1.10"]);
    assert_eq!(interfaces[0].addresses.ipv6, vec!["::1"]);
}

#[test]
fn addresses_are_sorted_and_deduplicated_and_names_ordered() {
    let interfaces = build(vec![
        v4("b", "10.0.0.9"),
        v4("a", "10.0.0.2"),
        v4("b", "10.0.0.1"),
        v4("b", "10.0.0.9"),
    ]);
    assert_eq!(interfaces.len(), 2);
    assert_eq!(interfaces[0].name, "a");
    assert_eq!(interfaces[1].name, "b");
    assert_eq!(interfaces[1].addresses.ipv4, vec!["10.0.0.1", "10.0.0.9"]);
}

#[test]
fn primary_interface_prefers_physical_network_over_tunnel() {
    let mut interfaces = build(vec![v4("Meta", "198.18.0.1"), v4("WLAN", "192.168.5.35")]);
    mark_primary(&mut interfaces);

    assert_eq!(
        interfaces.iter().find(|interface| interface.is_primary).map(|interface| interface.name.as_str()),
        Some("WLAN")
    );
}

#[test]
fn primary_interface_prefers_non_link_local_physical_network() {
    let mut interfaces = build(vec![v4(&local_connection_name(), "169.254.235.83"), v4("WLAN", "192.168.5.35")]);
    mark_primary(&mut interfaces);

    assert_eq!(
        interfaces.iter().find(|interface| interface.is_primary).map(|interface| interface.name.as_str()),
        Some("WLAN")
    );
}

#[test]
fn keeps_interfaces_with_colliding_sanitized_ids_separate() {
    let interfaces = build(vec![v4("Ethernet 1", "192.168.1.10"), v4("Ethernet-1", "192.168.1.11")]);

    assert_eq!(interfaces.len(), 2);
    assert_eq!(interfaces[0].name, "Ethernet 1");
    assert_eq!(interfaces[0].id, "if_ethernet_1");
    assert_eq!(interfaces[1].name, "Ethernet-1");
    assert_eq!(interfaces[1].id, "if_ethernet_1_2");
}

#[test]
fn avoids_final_id_collisions_after_suffixing() {
    let interfaces = build(vec![
        v4("Ethernet 1", "192.168.1.10"),
        v4("Ethernet-1", "192.168.1.11"),
        v4("Ethernet_1_2", "192.168.1.12"),
    ]);

    let ids = interfaces.iter().map(|interface| interface.id.as_str()).collect::<Vec<_>>();

    assert_eq!(ids, vec!["if_ethernet_1", "if_ethernet_1_3", "if_ethernet_1_2"]);
}

#[test]
fn rejects_mac_address_collection_request() {
    let error = read_network_snapshot(true, &Vec::new(), &PlatformDetailsMap::new(), HostPlatform::Other).unwrap_err();

    assert_eq!(error.code(), "invalid_config");
}

#[test]
fn snapshot_names_the_primary_interface() {
    let snapshot = read_network_snapshot(
        false,
        &vec![v4("lo0", "127.0.0.1"), v4("en0", "192.168.1.4")],
        &PlatformDetailsMap::new(),
        HostPlatform::Other,
    )
    .unwrap();
    assert_eq!(snapshot.primary_interface_id.as_deref(), Some("if_en0"));
    let empty = read_network_snapshot(false, &Vec::new(), &PlatformDetailsMap::new(), HostPlatform::Other).unwrap();
    assert!(empty.primary_interface_id.is_none());
}

#[test]
fn sanitized_ids_keep_letters_digits_and_single_separators() {
    assert_eq!(sanitize_id("Wi-Fi 2"), "if_wi_fi_2");
    assert_eq!(sanitize_id("--Eth__0--"), "if_eth_0");
    assert_eq!(sanitize_id("---"), "if");
    assert_eq!(sanitize_id(""), "if");
}

#[test]
fn unique_ids_leave_distinct_ids_alone() {
    let mut interfaces = build(vec![v4("a", "10.0.0.1"), v4("b", "10.0.0.2")]);
    assign_unique_ids(&mut interfaces);
    assert_eq!(interfaces[0].id, "if_a");
    assert_eq!(interfaces[1].id, "if_b");
}

#[test]
fn ipv4_parsing_follows_dotted_quads() {
    assert_eq!(parse_ipv4("192.168.1.10"), Some((192, 168, 1, 10)));
    assert_eq!(parse_ipv4("0.0.0.0"), Some((0, 0, 0, 0)));
    assert_eq!(parse_ipv4("256.1.1.1"), None);
    assert_eq!(parse_ipv4("01.1.1.1"), None);
    assert_eq!(parse_ipv4("1.1.1"), None);
    assert_eq!(parse_ipv4("1.1.1.1."), None);
    assert_eq!(parse_ipv4("+1.1.1.1"), None);
    assert_eq!(parse_ipv4("::1"), None);
}

#[test]
fn interface_keys_drop_braces_and_case() {
    assert_eq!(normalize_interface_key("{ABC-def}").iter().collect::<String>(), "abc-def");
    assert_eq!(normalize_interface_key("{}").iter().collect::<String>(), "");
    assert_eq!(
        macos_service_interface_type(Some("unknown"), Some("PPP")),
        Some(InterfaceType::Vpn)
    );
    assert_eq!(macos_service_interface_type(Some("Ethernet"), Some("IEEE80211")), Some(InterfaceType::Ethernet));
    assert_eq!(macos_service_interface_type(None, None), None);
}

#[test]
fn merging_platform_details_keeps_absent_values() {
    let mut base = PlatformInterfaceDetails {
        interface_type: Some(InterfaceType::Ethernet),
        gateway: Some("10.0.0.1".to_string()),
        dns_servers: vec!["1.1.1.1".to_string()],
        mac: None,
    };
    base.merge(PlatformInterfaceDetails { interface_type: Some(InterfaceType::Wifi), ..Default::default() });
    assert_eq!(base.interface_type, Some(InterfaceType::Wifi));
    assert_eq!(base.gateway.as_deref(), Some("10.0.0.1"));
    assert_eq!(base.dns_servers, vec!["1.1.1.1"]);
    let mut map = PlatformDetailsMap::new();
    map.merge_into("k".to_string(), typed(InterfaceType::Vpn));
    map.merge_into("k".to_string(), PlatformInterfaceDetails { gateway: Some("g".to_string()), ..Default::default() });
    assert_eq!(map.entries.len(), 1);
    let key: Vec<char> = "k".chars().collect();
    let merged = map.get(&key).unwrap();
    assert_eq!(merged.interface_type, Some(InterfaceType::Vpn));
    assert_eq!(merged.gateway.as_deref(), Some("g"));
}

fn key(name: &str) -> Vec<char> {
    normalize_interface_key(name)
}

#[test]
fn windows_adapters_are_recorded_under_both_names() {
    let mut details = PlatformDetailsMap::new();

    record_windows_adapter(
        &mut details,
        Some("{ABCD-01}".to_string()),
        Some("Ethernet 2".to_string()),
        6,
        Some("192.168.1.1".to_string()),
        vec!["1.1.1.1".to_string()],
        true,
    );

    let by_guid = details.get(&key("{ABCD-01}")).unwrap();
    assert_eq!(by_guid.interface_type, Some(InterfaceType::Ethernet));
    assert_eq!(by_guid.gateway.as_deref(), Some("192.168.1.1"));
    assert_eq!(by_guid.dns_servers, vec!["1.1.1.1"]);
    let by_name = details.get(&key("ethernet 2")).unwrap();
    assert_eq!(by_name.interface_type, Some(InterfaceType::Ethernet));
    assert!(details.get(&key("wi-fi")).is_none());
}

#[test]
fn down_windows_adapters_report_no_gateway() {
    let mut details = PlatformDetailsMap::new();

    record_windows_adapter(&mut details, None, Some("Wi-Fi".to_string()), 71, Some("10.0.0.1".to_string()), Vec::new(), false);

    let wifi = details.get(&key("Wi-Fi")).unwrap();
    assert_eq!(wifi.interface_type, Some(InterfaceType::Wifi));
    assert!(wifi.gateway.is_none());
    assert_eq!(details.entries.len(), 1);
}

#[test]
fn details_map_reads_back_the_last_write() {
    let mut details = PlatformDetailsMap::new();
    let typed = |t: InterfaceType| PlatformInterfaceDetails { interface_type: Some(t), ..Default::default() };

    details.insert("en0".to_string(), typed(InterfaceType::Wifi));
    details.insert("en1".to_string(), typed(InterfaceType::Ethernet));
    details.insert("en0".to_string(), typed(InterfaceType::Vpn));

    assert_eq!(details.get(&key("en0")).unwrap().interface_type, Some(InterfaceType::Vpn));
    assert_eq!(details.get(&key("en1")).unwrap().interface_type, Some(InterfaceType::Ethernet));
    assert_eq!(details.entries.len(), 2);
}

#[test]
fn resolved_type_prefers_trusted_names_on_macos_and_details_elsewhere() {
    let ethernet = typed(InterfaceType::Ethernet);
    assert_eq!(resolve_interface_type("utun3", &ethernet, HostPlatform::MacOs), InterfaceType::Vpn);
    assert_eq!(resolve_interface_type("utun3", &ethernet, HostPlatform::Windows), InterfaceType::Ethernet);
    assert_eq!(resolve_interface_type("en0", &ethernet, HostPlatform::MacOs), InterfaceType::Wifi);
    assert_eq!(resolve_interface_type("en5", &typed(InterfaceType::Vpn), HostPlatform::MacOs), InterfaceType::Vpn);
    let unknown = typed(InterfaceType::Unknown);
    assert_eq!(resolve_interface_type("lo", &unknown, HostPlatform::Other), InterfaceType::Loopback);
    let none = PlatformInterfaceDetails::default();
    assert_eq!(resolve_interface_type("wlan0", &none, HostPlatform::Other), InterfaceType::Wifi);
}

#[test]
fn classification_ignores_letter_case() {
    for name in ["Wi-Fi", "utun3", "Ethernet 2", "lo0", "Loopback Pseudo-Interface 1", "en0", "Tailscale"] {
        let upper = name.to_ascii_uppercase();
        let lower = name.to_ascii_lowercase();
        assert_eq!(classify_interface(&upper), classify_interface(name));
        assert_eq!(classify_interface(&lower), classify_interface(name));
    }
    assert_eq!(classify_interface("LO12"), InterfaceType::Loopback);
    assert_eq!(classify_interface("Loopback wifi vpn"), InterfaceType::Loopback);
}
