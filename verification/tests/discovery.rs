use iris_core::discovery::{
    advertised_properties, format_uuid_v4, host_name_or_unknown, hostname, mdns_host_name, new_device_id, our_service_name, service_info_to_device,
    str_contains, uuid_v4, DeviceRegistry, DiscoveryEvent, ServiceRecord,
};
use iris_core::protocol::{Capabilities, DeviceInfo};

fn record(id: Option<&str>) -> ServiceRecord {
    ServiceRecord {
        device_id: id.map(|s| s.to_string()),
        device_name: None,
        platform: None,
        screen_share: None,
        file_transfer: None,
        addresses: vec!["192.168.1.7".to_string()],
    }
}

fn device(id: &str, name: &str) -> DeviceInfo {
    DeviceInfo {
        device_id: id.to_string(),
        device_name: name.to_string(),
        platform: "linux".to_string(),
        ip_addresses: vec![],
        capabilities: Capabilities { screen_share: true, file_transfer: true, max_resolution: (1920, 1080) },
    }
}

#[test]
fn record_without_id_is_no_device() {
    assert!(service_info_to_device(record(None)).is_none());
}

#[test]
fn record_defaults() {
    let d = service_info_to_device(record(Some("iris-1"))).unwrap();
    assert_eq!(d.device_id, "iris-1");
    assert_eq!(d.device_name, "Unknown");
    assert_eq!(d.platform, "unknown");
    assert_eq!(d.ip_addresses, vec!["192.168.1.7".to_string()]);
    assert_eq!(
        d.capabilities,
        Capabilities { screen_share: true, file_transfer: true, max_resolution: (1920, 1080) }
    );
}

#[test]
fn record_flags_and_names() {
    let mut r = record(Some("x"));
    r.device_name = Some("Desk".to_string());
    r.platform = Some("macos".to_string());
    r.screen_share = Some("false".to_string());
    r.file_transfer = Some("TRUE".to_string());
    let d = service_info_to_device(r).unwrap();
    assert_eq!(d.device_name, "Desk");
    assert_eq!(d.platform, "macos");
    assert!(!d.capabilities.screen_share);
    assert!(!d.capabilities.file_transfer);
}

#[test]
fn registry_added_then_updated() {
    let mut reg = DeviceRegistry::new();
    assert!(matches!(reg.resolve(device("a", "Alpha")), DiscoveryEvent::DeviceAdded(d) if d.device_id == "a"));
    assert!(matches!(reg.resolve(device("b", "Beta")), DiscoveryEvent::DeviceAdded(_)));
    match reg.resolve(device("a", "Alpha 2")) {
        DiscoveryEvent::DeviceUpdated(d) => assert_eq!(d.device_name, "Alpha 2"),
        _ => panic!("expected an update"),
    }
    let all = reg.get_devices();
    assert_eq!(all.len(), 2);
    assert_eq!(all[0].device_name, "Alpha 2");
    assert_eq!(all[1].device_id, "b");
}

#[test]
fn resolving_the_same_device_again_changes_nothing() {
    let mut reg = DeviceRegistry::new();
    reg.resolve(device("a", "Alpha"));
    reg.resolve(device("b", "Beta"));
    let before = reg.get_devices();
    assert!(matches!(reg.resolve(device("b", "Beta")), DiscoveryEvent::DeviceUpdated(_)));
    assert_eq!(reg.get_devices(), before);
}

#[test]
fn registry_removal_by_name_or_id() {
    let mut reg = DeviceRegistry::new();
    reg.resolve(device("iris-123", "Laptop"));
    reg.resolve(device("iris-456", "Phone"));
    reg.resolve(device("iris-789", "Tablet"));
    let events = reg.remove_service("Laptop-iris-456._iris._udp.local.");
    assert_eq!(events, vec![DiscoveryEvent::DeviceRemoved("iris-456".to_string())]);
    let events = reg.remove_service("Tablet");
    assert_eq!(events, vec![DiscoveryEvent::DeviceRemoved("iris-789".to_string())]);
    assert!(reg.remove_service("nothing here").is_empty());
    let left = reg.get_devices();
    assert_eq!(left.len(), 1);
    assert_eq!(left[0].device_id, "iris-123");
}

#[test]
fn substring_search() {
    assert!(str_contains("hello world", "lo w"));
    assert!(str_contains("abc", ""));
    assert!(str_contains("", ""));
    assert!(!str_contains("abc", "abcd"));
    assert!(!str_contains("abc", "ac"));
    assert!(str_contains("ab\u{e9}c", "\u{e9}c"));
}

#[test]
fn uuid_formatting() {
    let bytes = [
        0x00, 0x11, 0x22, 0x33, 0x44, 0x55, 0x66, 0x77, 0x88, 0x99, 0xaa, 0xbb, 0xcc, 0xdd, 0xee, 0xff,
    ];
    assert_eq!(format_uuid_v4(bytes), "00112233-4455-4677-8899-aabbccddeeff");
    assert_eq!(format_uuid_v4([0xff; 16]), "ffffffff-ffff-4fff-bfff-ffffffffffff");
    assert_eq!(format_uuid_v4([0; 16]), "00000000-0000-4000-8000-000000000000");
}

#[test]
fn random_uuid_shape() {
    let u = uuid_v4();
    let chars: Vec<char> = u.chars().collect();
    assert_eq!(chars.len(), 36);
    for i in [8, 13, 18, 23] {
        assert_eq!(chars[i], '-');
    }
    assert_eq!(chars[14], '4');
    assert!(matches!(chars[19], '8' | '9' | 'a' | 'b'));
    assert!(chars.iter().all(|c| *c == '-' || c.is_ascii_hexdigit() && !c.is_ascii_uppercase()));
    assert_ne!(uuid_v4(), u);
}

#[test]
fn service_name_and_host() {
    let name = our_service_name("Desk");
    assert!(name.starts_with("Desk-"));
    assert_eq!(name.len(), "Desk-".len() + 36);
    assert_eq!(mdns_host_name("box"), "box.local.");
}

#[test]
fn device_ids_are_iris_prefixed_v4_uuids() {
    let a = new_device_id();
    let b = new_device_id();
    assert_ne!(a, b);
    assert!(a.starts_with("iris-"));
    let u: Vec<char> = a["iris-".len()..].chars().collect();
    assert_eq!(u.len(), 36);
    assert_eq!((u[8], u[13], u[18], u[23]), ('-', '-', '-', '-'));
    assert_eq!(u[14], '4');
    assert!("89ab".contains(u[19]));
    assert!(u.iter().all(|c| *c == '-' || c.is_ascii_hexdigit() && !c.is_ascii_uppercase()));
}

#[test]
fn host_name_falls_back_to_unknown() {
    assert_eq!(host_name_or_unknown(Some("box".to_string())), "box");
    assert_eq!(host_name_or_unknown(None), "unknown");
    let _ = hostname();
}

#[test]
fn advertised_txt_properties() {
    let props = advertised_properties("iris-1", "Desk", "linux", "0.1.0");
    let expected: Vec<(String, String)> = [
        ("device_id", "iris-1"),
        ("device_name", "Desk"),
        ("platform", "linux"),
        ("version", "0.1.0"),
        ("screen_share", "true"),
        ("file_transfer", "true"),
    ]
    .iter()
    .map(|(k, v)| (k.to_string(), v.to_string()))
    .collect();
    assert_eq!(props, expected);
}
