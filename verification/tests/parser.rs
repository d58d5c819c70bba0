use cast_discovery::device::{DeviceRecord, DnsRecord, ParseError};
use cast_discovery::ip::IpAddress;

fn v4(a: u8, b: u8, c: u8, d: u8) -> DnsRecord {
    DnsRecord::Address { addr: IpAddress::V4 { a, b, c, d } }
}

fn attrs(entries: &[&str]) -> DnsRecord {
    DnsRecord::Attributes { entries: entries.iter().map(|e| String::from(*e)).collect() }
}

#[test]
fn parser_rejects_empty_response() {
    let records: Vec<DnsRecord> = vec![];
    assert!(DeviceRecord::from_mdns(&records).is_none());
    assert_eq!(DeviceRecord::parse_response(&records), Err(ParseError::NoAddress));
}

#[test]
fn parser_rejects_response_without_port() {
    let records = vec![v4(198, 51, 100, 7)];
    assert!(DeviceRecord::from_mdns(&records).is_none());
    assert_eq!(DeviceRecord::parse_response(&records), Err(ParseError::NoServiceLocation));
}

#[test]
fn parser_rejects_response_without_address() {
    let records = vec![
        DnsRecord::ServiceLocation { port: 8009 },
        attrs(&["fn=Living Room"]),
    ];
    assert!(DeviceRecord::from_mdns(&records).is_none());
    assert_eq!(DeviceRecord::parse_response(&records), Err(ParseError::NoAddress));
}

#[test]
fn parser_accepts_complete_response() {
    let records = vec![
        v4(198, 51, 100, 7),
        DnsRecord::ServiceLocation { port: 8009 },
        attrs(&["fn=Living Room", "md=Chromecast Ultra"]),
    ];
    let device = DeviceRecord::from_mdns(&records).unwrap();
    assert_eq!(device.ip_addr, IpAddress::V4 { a: 198, b: 51, c: 100, d: 7 });
    assert_eq!(device.port, 8009);
    assert_eq!(device.friendly_name, Some(String::from("Living Room")));
    assert_eq!(device.model, Some(String::from("Chromecast Ultra")));
    assert_eq!(device.ptr, None);
    assert_eq!(device.device_uuid, None);
    assert_eq!(device.version, None);
    assert_eq!(device.icon_path, None);
    assert_eq!(device.certificate_authority, None);
    assert_eq!(device.display_name().as_str(), "Living Room (198.51.100.7)");
}

#[test]
fn parser_reads_all_recognized_keys() {
    let records = vec![
        DnsRecord::Pointer { target: String::from("Living._googlecast._tcp.local") },
        v4(10, 0, 0, 2),
        DnsRecord::ServiceLocation { port: 8009 },
        attrs(&[
            "ca=4101",
            "fn=Kitchen",
            "ic=/setup/icon.png",
            "id=abcd1234",
            "md=Chromecast",
            "ve=05",
        ]),
    ];
    let device = DeviceRecord::from_mdns(&records).unwrap();
    assert_eq!(device.ptr, Some(String::from("Living._googlecast._tcp.local")));
    assert_eq!(device.certificate_authority, Some(String::from("4101")));
    assert_eq!(device.friendly_name, Some(String::from("Kitchen")));
    assert_eq!(device.icon_path, Some(String::from("/setup/icon.png")));
    assert_eq!(device.device_uuid, Some(String::from("abcd1234")));
    assert_eq!(device.model, Some(String::from("Chromecast")));
    assert_eq!(device.version, Some(String::from("05")));
}

#[test]
fn parser_last_write_wins() {
    let records = vec![
        v4(10, 0, 0, 1),
        DnsRecord::ServiceLocation { port: 1000 },
        attrs(&["fn=Old Name"]),
        v4(10, 0, 0, 9),
        DnsRecord::ServiceLocation { port: 8009 },
        attrs(&["fn=New Name"]),
    ];
    let device = DeviceRecord::from_mdns(&records).unwrap();
    assert_eq!(device.ip_addr, IpAddress::V4 { a: 10, b: 0, c: 0, d: 9 });
    assert_eq!(device.port, 8009);
    assert_eq!(device.friendly_name, Some(String::from("New Name")));
}

#[test]
fn parser_keeps_values_a_later_attribute_record_omits() {
    let records = vec![
        v4(10, 0, 0, 1),
        DnsRecord::ServiceLocation { port: 8009 },
        attrs(&["fn=Den", "md=Chromecast"]),
        attrs(&["md=Chromecast Ultra"]),
    ];
    let device = DeviceRecord::from_mdns(&records).unwrap();
    assert_eq!(device.friendly_name, Some(String::from("Den")));
    assert_eq!(device.model, Some(String::from("Chromecast Ultra")));
}

#[test]
fn parser_skips_malformed_and_unrecognized_entries() {
    let records = vec![
        v4(10, 0, 0, 1),
        DnsRecord::ServiceLocation { port: 8009 },
        attrs(&["noequals", "a=b=c", "zz=1", "", "fn=Den", "fn=extra=parts"]),
    ];
    let device = DeviceRecord::from_mdns(&records).unwrap();
    assert_eq!(device.friendly_name, Some(String::from("Den")));
    assert_eq!(device.device_uuid, None);
    assert_eq!(device.model, None);
}

#[test]
fn parser_allows_empty_attribute_value() {
    let records = vec![
        v4(10, 0, 0, 1),
        DnsRecord::ServiceLocation { port: 8009 },
        attrs(&["fn="]),
    ];
    let device = DeviceRecord::from_mdns(&records).unwrap();
    assert_eq!(device.friendly_name, Some(String::from("")));
}

#[test]
fn parser_ignores_unread_record_kinds() {
    let records = vec![
        DnsRecord::Other,
        v4(10, 0, 0, 1),
        DnsRecord::ServiceLocation { port: 8009 },
        DnsRecord::Other,
    ];
    assert!(DeviceRecord::from_mdns(&records).is_some());
}

#[test]
fn records_compare_structurally() {
    let records = vec![v4(10, 0, 0, 1), DnsRecord::ServiceLocation { port: 8009 }];
    let a = DeviceRecord::from_mdns(&records).unwrap();
    let b = DeviceRecord::from_mdns(&records).unwrap();
    assert!(a == b);
    let renamed = vec![
        v4(10, 0, 0, 1),
        DnsRecord::ServiceLocation { port: 8009 },
        DnsRecord::Attributes { entries: vec![String::from("fn=Den")] },
    ];
    let c = DeviceRecord::from_mdns(&renamed).unwrap();
    assert!(a != c);
}
