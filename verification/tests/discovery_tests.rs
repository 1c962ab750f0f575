use usb_passthrough::discovery::{
    encode_devices_txt, service_info, service_name, service_record, txt_properties, BrowseCollector, BrowseEvent,
    DiscoveredServer,
};
use usb_passthrough::protocol::{UsbIpDeviceEntry, UsbIpError};

fn make_test_entry(busid: &str, vid: u16, pid: u16) -> UsbIpDeviceEntry {
    let mut entry = UsbIpDeviceEntry::zeroed();
    let b = busid.as_bytes();
    let n = b.len().min(31);
    entry.busid[..n].copy_from_slice(&b[..n]);
    entry.id_vendor = vid;
    entry.id_product = pid;
    entry
}

#[test]
fn encode_devices_txt_empty() {
    assert_eq!(encode_devices_txt(&[]), "");
}

#[test]
fn encode_devices_txt_single() {
    let devices = vec![make_test_entry("1-1", 0x1234, 0x5678)];
    assert_eq!(encode_devices_txt(&devices), "vid=0x1234,pid=0x5678,bus=1-1,n=1234:5678");
}

#[test]
fn encode_devices_txt_multi_preserves_order() {
    let devices =
        vec![make_test_entry("1-1", 0x046d, 0xc261), make_test_entry("1-2", 0x8087, 0x0024)];
    assert_eq!(
        encode_devices_txt(&devices),
        "vid=0x046d,pid=0xc261,bus=1-1,n=046d:c261,vid=0x8087,pid=0x0024,bus=1-2,n=8087:0024"
    );
}

#[test]
fn encode_devices_txt_hex_is_lowercase_and_padded() {
    let devices = vec![make_test_entry("12-127", 0x00ab, 0xffff)];
    assert_eq!(encode_devices_txt(&devices), "vid=0x00ab,pid=0xffff,bus=12-127,n=00ab:ffff");
}

#[test]
fn service_name_appends_service_type() {
    assert_eq!(service_name("host"), "host._usbip._tcp.local.");
}

#[test]
fn txt_properties_without_devices() {
    let props = txt_properties("linux", &[]);
    assert_eq!(props.len(), 2);
    assert_eq!(props[0], ("version".to_string(), "1.1.1".to_string()));
    assert_eq!(props[1], ("platform".to_string(), "linux".to_string()));
}

#[test]
fn txt_properties_with_devices() {
    let devices = vec![make_test_entry("1-1", 0x1234, 0x5678)];
    let props = txt_properties("windows", &devices);
    assert_eq!(props.len(), 3);
    assert_eq!(props[2].0, "devices");
    assert_eq!(props[2].1, "vid=0x1234,pid=0x5678,bus=1-1,n=1234:5678");
}

fn server(host: &str, port: u16) -> DiscoveredServer {
    DiscoveredServer { host: host.to_string(), port, txt: vec![] }
}

#[test]
fn browse_keeps_first_resolution_of_each_name() {
    let mut c = BrowseCollector::new();
    assert!(c.on_event(BrowseEvent::Resolved { fullname: "a".to_string(), server: server("10.0.0.1", 3240) }));
    assert!(c.on_event(BrowseEvent::Other));
    assert!(c.on_event(BrowseEvent::Resolved { fullname: "b".to_string(), server: server("10.0.0.2", 3240) }));
    assert!(c.on_event(BrowseEvent::Resolved { fullname: "a".to_string(), server: server("10.0.0.9", 1) }));
    assert!(!c.on_event(BrowseEvent::SearchStopped));
    let servers = c.into_servers();
    assert_eq!(servers.len(), 2);
    assert_eq!(servers[0].host, "10.0.0.1");
    assert_eq!(servers[0].port, 3240);
    assert_eq!(servers[1].host, "10.0.0.2");
}

#[test]
fn browse_stops_when_receiving_fails() {
    let mut c = BrowseCollector::new();
    assert!(!c.on_event(BrowseEvent::ReceiveFailed));
    assert_eq!(c.into_servers().len(), 0);
}

#[test]
fn service_record_carries_name_port_and_devices() {
    let devices = vec![make_test_entry("1-1", 0x1234, 0x5678)];
    let info = service_info("host._usbip._tcp.local.", "192.168.1.5", 3240, "linux", &devices).unwrap();
    assert_eq!(info.get_fullname(), "USB/IP Server._usbip._tcp.local.");
    assert_eq!(info.get_port(), 3240);
    assert_eq!(info.get_property_val_str("devices"), Some("vid=0x1234,pid=0x5678,bus=1-1,n=1234:5678"));
    assert_eq!(info.get_property_val_str("version"), Some("1.1.1"));
    assert_eq!(info.get_property_val_str("platform"), Some("linux"));
}

#[test]
fn service_record_refuses_device_list_over_one_txt_string() {
    let devices: Vec<UsbIpDeviceEntry> =
        (0..6).map(|i| make_test_entry(&format!("1-{}", i), 0x1234, 0x5678)).collect();
    match service_info("h", "127.0.0.1", 3240, "linux", &devices) {
        Err(UsbIpError::NotSupported(m)) => assert!(m.starts_with("mDNS service creation failed: ")),
        _ => panic!("an over-long TXT value must be refused"),
    }
    assert!(service_info("h", "127.0.0.1", 3240, "linux", &devices[..5]).is_ok());
    assert!(service_info("h", "not-an-ip", 3240, "linux", &[]).is_err());
}

#[test]
fn encode_devices_txt_replaces_invalid_busid_bytes() {
    let mut e = make_test_entry("", 0x1234, 0x5678);
    e.busid[0] = 0xff;
    e.busid[1] = b'1';
    assert_eq!(encode_devices_txt(&[e]), "vid=0x1234,pid=0x5678,bus=\u{fffd}1,n=1234:5678");
}

#[test]
fn service_record_fields() {
    let devices = vec![make_test_entry("1-1", 0x1234, 0x5678)];
    let r = service_record("host._usbip._tcp.local.", "10.0.0.2", 3240, "linux", &devices);
    assert_eq!(r.ty_domain, "_usbip._tcp.local.");
    assert_eq!(r.instance, "USB/IP Server");
    assert_eq!(r.host, "host._usbip._tcp.local.");
    assert_eq!(r.ip, "10.0.0.2");
    assert_eq!(r.port, 3240);
    assert_eq!(r.properties.len(), 3);
    assert_eq!(r.properties[1], ("platform".to_string(), "linux".to_string()));
    let bare = service_record("h", "10.0.0.2", 1, "linux", &[]);
    assert_eq!(bare.properties.len(), 2);
}

#[test]
fn service_info_refuses_overlong_platform() {
    let platform = "x".repeat(247);
    assert!(service_info("h", "127.0.0.1", 3240, &platform, &[]).is_err());
    let fits = "x".repeat(246);
    assert!(service_info("h", "127.0.0.1", 3240, &fits, &[]).is_ok());
}
