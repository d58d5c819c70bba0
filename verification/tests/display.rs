use cast_discovery::device::DeviceRecord;
use cast_discovery::ip::IpAddress;

fn bare_device(ip_addr: IpAddress) -> DeviceRecord {
    DeviceRecord {
        ptr: None,
        ip_addr,
        port: 8009,
        device_uuid: None,
        model: None,
        version: None,
        icon_path: None,
        certificate_authority: None,
        friendly_name: None,
    }
}

#[test]
fn display_name_defaults_to_unnamed() {
    let device = bare_device(IpAddress::V4 { a: 10, b: 0, c: 0, d: 1 });
    assert_eq!(device.display_name().as_str(), "Unnamed (10.0.0.1)");
}

#[test]
fn display_name_uses_the_friendly_name() {
    let mut device = bare_device(IpAddress::V4 { a: 192, b: 168, c: 1, d: 250 });
    device.friendly_name = Some(String::from("Living Room"));
    assert_eq!(device.display_name().as_str(), "Living Room (192.168.1.250)");
}

#[test]
fn ipv4_text_is_dotted_decimal() {
    let ip = IpAddress::V4 { a: 0, b: 7, c: 45, d: 255 };
    assert_eq!(ip.to_text().as_str(), "0.7.45.255");
}

#[test]
fn ipv6_text_is_full_hex_groups() {
    let ip = IpAddress::V6 {
        g0: 0xfe80,
        g1: 0,
        g2: 0,
        g3: 0,
        g4: 0x02aa,
        g5: 0xff,
        g6: 0xfe28,
        g7: 0x9c5a,
    };
    assert_eq!(ip.to_text().as_str(), "fe80:0:0:0:2aa:ff:fe28:9c5a");
}
