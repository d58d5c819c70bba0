use cast_discovery::cache::DeviceDiscoveryCache;
use cast_discovery::device::{DeviceRecord, DnsRecord};
use cast_discovery::ip::IpAddress;
use cast_discovery::services::DiscoverServices;

fn sample_device(friendly_name: Option<&str>) -> DeviceRecord {
    let mut records = vec![
        DnsRecord::Address { addr: IpAddress::V4 { a: 198, b: 51, c: 100, d: 7 } },
        DnsRecord::ServiceLocation { port: 8009 },
    ];
    if let Some(name) = friendly_name {
        records.push(DnsRecord::Attributes { entries: vec![format!("fn={}", name)] });
    }
    DeviceRecord::from_mdns(&records).unwrap()
}

#[test]
fn new_cache_has_default_timeout() {
    let cache = DeviceDiscoveryCache::new(DiscoverServices::GoogleCast.service_string());
    assert_eq!(cache.timeout_ms, 2000);
}

#[test]
fn new_cache_is_idle_and_empty() {
    let cache = DeviceDiscoveryCache::new(String::from("_googlecast._tcp.local"));
    assert!(!cache.is_discovery_running());
    assert!(cache.devices().is_empty());
}

#[test]
fn insert_is_idempotent_under_structural_equality() {
    let mut cache = DeviceDiscoveryCache::new(String::from("_googlecast._tcp.local"));
    cache.insert_device(sample_device(Some("Living Room")));
    cache.insert_device(sample_device(Some("Living Room")));
    assert_eq!(cache.devices().len(), 1);
}

#[test]
fn a_changed_optional_field_yields_a_distinct_entry() {
    let mut cache = DeviceDiscoveryCache::new(String::from("_googlecast._tcp.local"));
    cache.insert_device(sample_device(Some("Living Room")));
    cache.insert_device(sample_device(Some("Bedroom")));
    cache.insert_device(sample_device(None));
    assert_eq!(cache.devices().len(), 3);
}

#[test]
fn poll_lifecycle_is_observable() {
    let mut cache = DeviceDiscoveryCache::new(String::from("_googlecast._tcp.local"));
    assert!(!cache.is_discovery_running());
    assert!(cache.start_discovery(5));
    assert!(cache.is_discovery_running());
    cache.finish_discovery(6);
    assert!(!cache.is_discovery_running());
}

#[test]
fn start_discovery_never_launches_a_second_poll() {
    let mut cache = DeviceDiscoveryCache::new(String::from("_googlecast._tcp.local"));
    assert!(cache.start_discovery(5));
    assert!(!cache.start_discovery(7));
    assert!(cache.is_discovery_running());
    cache.finish_discovery(8);
    assert!(cache.start_discovery(9));
}

#[test]
fn devices_returns_an_independent_snapshot() {
    let mut cache = DeviceDiscoveryCache::new(String::from("_googlecast._tcp.local"));
    cache.insert_device(sample_device(Some("Living Room")));
    let mut snapshot = cache.devices();
    assert_eq!(snapshot.len(), 1);
    assert!(snapshot[0] == sample_device(Some("Living Room")));
    snapshot.push(sample_device(Some("Bedroom")));
    assert_eq!(cache.devices().len(), 1);
}

#[test]
fn inserts_during_a_poll_are_visible_in_snapshots() {
    let mut cache = DeviceDiscoveryCache::new(String::from("_googlecast._tcp.local"));
    assert!(cache.start_discovery(5));
    cache.insert_device(sample_device(Some("Living Room")));
    assert!(cache.is_discovery_running());
    let snapshot = cache.devices();
    assert_eq!(snapshot.len(), 1);
    assert_eq!(snapshot[0].port, 8009);
    assert_eq!(snapshot[0].display_name().as_str(), "Living Room (198.51.100.7)");
}

#[test]
fn service_string_names_the_cast_service() {
    assert_eq!(
        DiscoverServices::GoogleCast.service_string().as_str(),
        "_googlecast._tcp.local"
    );
}
