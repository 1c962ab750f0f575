use usb_passthrough::protocol::UsbIpDeviceEntry;
use usb_passthrough::vhci_backend::{MockVhciBackend, VhciBackend};

/// Create a minimal `UsbIpDeviceEntry` for testing.
fn make_dummy_entry(busid: &str, vid: u16, pid: u16) -> UsbIpDeviceEntry {
    let mut entry = UsbIpDeviceEntry::zeroed();
    let busid_bytes = busid.as_bytes();
    let copy_len = busid_bytes.len().min(31);
    entry.busid[..copy_len].copy_from_slice(&busid_bytes[..copy_len]);
    entry.id_vendor = vid;
    entry.id_product = pid;
    entry
}

#[test]
fn test_mock_create_device() {
    let mut backend = MockVhciBackend::new();
    let entry = make_dummy_entry("1-2", 0x1234, 0x5678);
    let descriptors = vec![0u8; 64];

    let device = backend.create_device(&entry, &descriptors).unwrap();
    assert_eq!(device.port, 0);
    assert_eq!(device.vid, 0x1234);
    assert_eq!(device.pid, 0x5678);
    assert_eq!(backend.device_count(), 1);
}

#[test]
fn test_mock_complete_urb() {
    let mut backend = MockVhciBackend::new();
    let data = vec![1u8, 2, 3, 4];

    backend.complete_urb(42, 0, 0, 4, &data).unwrap();

    let urbs = backend.recorded_urbs();
    assert_eq!(urbs.len(), 1);
    assert_eq!(urbs[0].0, 42); // seqnum
    assert_eq!(urbs[0].1, 0); // devid
    assert_eq!(urbs[0].3, 4); // actual_length
    assert_eq!(urbs[0].4, data);
}

#[test]
fn test_mock_sequential_ports() {
    let mut backend = MockVhciBackend::new();
    let entry = make_dummy_entry("1-2", 0x1234, 0x5678);
    let descriptors = vec![0u8; 64];

    let d0 = backend.create_device(&entry, &descriptors).unwrap();
    assert_eq!(d0.port, 0);

    let d1 = backend.create_device(&entry, &descriptors).unwrap();
    assert_eq!(d1.port, 1);

    let d2 = backend.create_device(&entry, &descriptors).unwrap();
    assert_eq!(d2.port, 2);

    assert_eq!(backend.device_count(), 3);
}

#[test]
fn mock_device_carries_busid_and_devid() {
    let mut backend = MockVhciBackend::new();
    let entry = make_dummy_entry("3-14", 0x046d, 0xc261);
    let d0 = backend.create_device(&entry, &[]).unwrap();
    let d1 = backend.create_device(&entry, &[]).unwrap();
    assert_eq!(d0.busid, "3-14");
    assert_eq!(d0.devid, d0.port);
    assert_eq!(d1.devid, 1);
    let stored = backend.device(1);
    assert_eq!(stored.port, 1);
    assert_eq!(stored.busid, "3-14");
}

#[test]
fn mock_records_urbs_in_order_and_ignores_cancel_and_remove() {
    let mut backend = MockVhciBackend::new();
    backend.complete_urb(1, 7, -32, 0, &[]).unwrap();
    backend.complete_urb(2, 7, 0, 3, &[9, 8, 7]).unwrap();
    backend.cancel_urb(3, 7).unwrap();
    backend.remove_device(7).unwrap();
    let urbs = backend.recorded_urbs();
    assert_eq!(urbs.len(), 2);
    assert_eq!(urbs[0], (1, 7, -32, 0, vec![]));
    assert_eq!(urbs[1], (2, 7, 0, 3, vec![9, 8, 7]));
    assert_eq!(backend.device_count(), 0);
}
