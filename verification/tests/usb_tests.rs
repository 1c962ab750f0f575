use usb_passthrough::protocol::{TransferError, UsbIpCmdSubmit, UsbIpError};
use usb_passthrough::usb::{
    bcd_version, complete_transfer, config_descriptor_read, config_total_length, desc_to_bytes,
    descriptor_tree, device_entry, format_busid, interfaces_to_claim, interfaces_to_release,
    parse_busid, plan_transfer, ConfigSummary, DeviceDescriptor, TransferPlan, UsbDeviceInfo, UsbDeviceManager, is_allowed,
};

fn info(bus: u8, addr: u8, vid: u16, pid: u16) -> UsbDeviceInfo {
    UsbDeviceInfo {
        bus_number: bus,
        address: addr,
        speed: 3,
        vendor_id: vid,
        product_id: pid,
        device_version: 0x0100,
        class_code: 0,
        sub_class_code: 0,
        protocol_code: 0,
        num_configurations: 1,
        first_config: Some(ConfigSummary { num_interfaces: 2, number: 1 }),
    }
}

#[test]
fn parse_busid_accepts_what_str_parse_accepts() {
    assert_eq!(parse_busid("1-2").unwrap(), (1, 2));
    assert_eq!(parse_busid("001-+7").unwrap(), (1, 7));
    assert_eq!(parse_busid("1-2-3").unwrap(), (1, 2));
    assert_eq!(parse_busid("255-0").unwrap(), (255, 0));
}

#[test]
fn parse_busid_rejects_bad_text() {
    for bad in ["12", "256-1", "-1", "1-", "+-1", "a-1", "1-2.3", "", "1--2"] {
        match parse_busid(bad) {
            Err(UsbIpError::DeviceNotFound(m)) => assert_eq!(m, bad),
            other => panic!("{:?} parsed as {:?}", bad, other),
        }
    }
}

#[test]
fn device_entry_from_info() {
    let e = device_entry(&info(3, 17, 0x046d, 0xc261));
    assert_eq!(e.busid_str(), "3-17");
    let path = b"/sys/bus/usb/devices/3-17";
    assert_eq!(&e.path[..path.len()], path);
    assert!(e.path[path.len()..].iter().all(|b| *b == 0));
    assert_eq!(e.busnum, 3);
    assert_eq!(e.devnum, 17);
    assert_eq!(e.speed, 3);
    assert_eq!(e.id_vendor, 0x046d);
    assert_eq!(e.b_num_interfaces, 2);
    assert_eq!(e.b_configuration_value, 1);
    let mut no_config = info(1, 1, 1, 1);
    no_config.first_config = None;
    let e2 = device_entry(&no_config);
    assert_eq!(e2.b_num_interfaces, 0);
    assert_eq!(e2.b_configuration_value, 0);
    assert_eq!(format_busid(255, 127), b"255-127".to_vec());
}

#[test]
fn list_and_find_devices() {
    let mgr: UsbDeviceManager<u32> = UsbDeviceManager::new();
    let probed = vec![Some(info(1, 2, 0x1111, 0x2222)), None, Some(info(1, 5, 0x3333, 0x4444))];
    let list = mgr.list_devices(&probed);
    assert_eq!(list.len(), 2);
    assert_eq!(list[1].busid_str(), "1-5");
    // A listed device is found again by its own bus id.
    let again = mgr.get_device_entry(&probed, &list[1].busid_str()).unwrap();
    assert_eq!(again.id_vendor, 0x3333);
    assert!(mgr.get_device_entry(&probed, "1-3").is_none());
    assert!(mgr.get_device_entry(&probed, "x").is_none());
}

#[test]
fn find_device_and_its_error() {
    let mgr: UsbDeviceManager<u32> = UsbDeviceManager::new();
    let addrs = vec![(1u8, 2u8), (1, 3), (1, 3)];
    assert_eq!(mgr.find_device(&addrs, 1, 3).unwrap(), 1);
    match mgr.find_device(&addrs, 4, 10) {
        Err(UsbIpError::DeviceNotFound(m)) => assert_eq!(m, "bus 4 dev 10"),
        other => panic!("unexpected {:?}", other),
    }
}

#[test]
fn claim_execute_release() {
    let mut mgr: UsbDeviceManager<u32> = UsbDeviceManager::new();
    let cmd = UsbIpCmdSubmit {
        seqnum: 1,
        devid: 1,
        direction: 0,
        ep: 2,
        transfer_flags: 0,
        transfer_buffer_length: 8,
        start_frame: 0,
        number_of_packets: 0,
        interval: 0,
        setup: [0; 8],
    };
    assert!(matches!(mgr.execute_urb("1-2", &cmd), Err(UsbIpError::DeviceNotFound(_))));
    assert!(matches!(mgr.claim_device("bogus", 9), Err(UsbIpError::DeviceNotFound(_))));
    mgr.claim_device("1-2", 7).unwrap();
    assert!(mgr.is_claimed("1-2"));
    let (h, plan) = mgr.execute_urb("1-2", &cmd).unwrap();
    assert_eq!(*h, 7);
    assert_eq!(plan, TransferPlan::BulkOut { endpoint: 2 });
    mgr.claim_device("1-2", 8).unwrap();
    assert_eq!(*mgr.execute_urb("1-2", &cmd).unwrap().0, 8);
    assert_eq!(mgr.release_device("1-2"), Some(8));
    assert_eq!(mgr.release_device("1-2"), None);
    assert!(!mgr.is_claimed("1-2"));
}

fn dev_desc() -> DeviceDescriptor {
    DeviceDescriptor {
        length: 18,
        descriptor_type: 1,
        usb_version: 0x0200,
        class_code: 0,
        sub_class_code: 0,
        protocol_code: 0,
        max_packet_size_0: 64,
        vendor_id: 0x046d,
        product_id: 0xc261,
        device_version: 0x1234,
        manufacturer_string_index: 1,
        product_string_index: 2,
        serial_number_string_index: 3,
        num_configurations: 1,
    }
}

#[test]
fn device_descriptor_bytes_little_endian() {
    assert_eq!(
        desc_to_bytes(&dev_desc()),
        vec![18, 1, 0x00, 0x02, 0, 0, 0, 64, 0x6d, 0x04, 0x61, 0xc2, 0x34, 0x12, 1, 2, 3, 1]
    );
}

/// A CDC-ACM style configuration: class-specific interface descriptors
/// and two bulk endpoints, 9 + 9 + 5 + 5 + 7 + 7 = 42 bytes.
fn cdc_config() -> Vec<u8> {
    let mut c = vec![9, 2, 42, 0, 1, 1, 0, 0x80, 50];
    c.extend_from_slice(&[9, 4, 0, 0, 2, 0x02, 0x02, 0x01, 0]);
    c.extend_from_slice(&[5, 0x24, 0x00, 0x10, 0x01]);
    c.extend_from_slice(&[5, 0x24, 0x06, 0x00, 0x01]);
    c.extend_from_slice(&[7, 5, 0x81, 2, 0x40, 0x00, 0]);
    c.extend_from_slice(&[7, 5, 0x02, 2, 0x40, 0x00, 0]);
    c
}

#[test]
fn descriptor_tree_passes_configuration_sets_byte_for_byte() {
    let config = cdc_config();
    assert_eq!(config.len(), 42);
    let tree = descriptor_tree(&dev_desc(), &vec![config.clone()]);
    let mut expected = desc_to_bytes(&dev_desc());
    expected.extend_from_slice(&config);
    assert_eq!(tree, expected);
    let mgr: UsbDeviceManager<u32> = UsbDeviceManager::new();
    assert_eq!(mgr.get_descriptor_tree(&dev_desc(), &vec![]), desc_to_bytes(&dev_desc()));
    let two = mgr.get_descriptor_tree(&dev_desc(), &vec![config.clone(), config.clone()]);
    assert_eq!(two.len(), 18 + 84);
}

#[test]
fn descriptor_tree_passes_short_sets_as_read() {
    let mut short = cdc_config();
    short.truncate(30);
    let tree = descriptor_tree(&dev_desc(), &vec![short.clone(), vec![9, 2]]);
    let mut expected = desc_to_bytes(&dev_desc());
    expected.extend_from_slice(&short);
    expected.extend_from_slice(&[9, 2]);
    assert_eq!(tree, expected);
}

#[test]
fn config_descriptor_reads() {
    assert_eq!(config_total_length(&[9, 2, 42, 0, 1, 1, 0, 0x80, 50]), Some(42));
    assert_eq!(config_total_length(&[9, 2, 0x10, 0x01, 1, 1, 0, 0x80, 50]), Some(0x0110));
    assert_eq!(config_total_length(&[9, 2, 42, 0]), None);
    assert_eq!(config_total_length(&[9, 4, 42, 0, 1, 1, 0, 0x80, 50]), None);
    assert!(matches!(
        config_descriptor_read(1, 9),
        TransferPlan::ControlIn { request_type: 0x80, request: 6, value: 0x0201, index: 0, length: 9 }
    ));
}

#[test]
fn bcd_of_versions() {
    assert_eq!(bcd_version(2, 1, 0), 0x0210);
    assert_eq!(bcd_version(12, 3, 4), 0x1234);
    assert_eq!(bcd_version(0, 0, 1), 0x0001);
}

fn cmd(direction: u32, ep: u32, len: u32, setup: [u8; 8]) -> UsbIpCmdSubmit {
    UsbIpCmdSubmit {
        seqnum: 0,
        devid: 0,
        direction,
        ep,
        transfer_flags: 0,
        transfer_buffer_length: len,
        start_frame: 0,
        number_of_packets: 0,
        interval: 0,
        setup,
    }
}

#[test]
fn transfer_plans() {
    let setup = [0x80, 6, 0x00, 0x01, 0x09, 0x04, 0x12, 0x00];
    assert_eq!(
        plan_transfer(&cmd(1, 0, 18, setup)),
        TransferPlan::ControlIn { request_type: 0x80, request: 6, value: 0x0100, index: 0x0409, length: 18 }
    );
    assert_eq!(
        plan_transfer(&cmd(0, 0, 0, setup)),
        TransferPlan::ControlOut { request_type: 0x80, request: 6, value: 0x0100, index: 0x0409 }
    );
    assert_eq!(plan_transfer(&cmd(1, 1, 8, setup)), TransferPlan::BulkIn { endpoint: 1, buffer_len: 512 });
    assert_eq!(plan_transfer(&cmd(1, 1, 4096, setup)), TransferPlan::BulkIn { endpoint: 1, buffer_len: 4096 });
    assert_eq!(plan_transfer(&cmd(0, 0x102, 4, setup)), TransferPlan::BulkOut { endpoint: 2 });
    assert_eq!(TransferPlan::BulkIn { endpoint: 1, buffer_len: 600 }.in_buffer_len(), 600);
    assert_eq!(TransferPlan::BulkOut { endpoint: 1 }.in_buffer_len(), 0);
}

#[test]
fn completed_transfers() {
    let plan_in = TransferPlan::BulkIn { endpoint: 1, buffer_len: 512 };
    let c = complete_transfer(&plan_in, 3, vec![1, 2, 3, 4, 5]);
    assert_eq!(c.status, 0);
    assert_eq!(c.actual_length, 3);
    assert_eq!(c.data, vec![1, 2, 3]);
    let c = complete_transfer(&TransferPlan::BulkOut { endpoint: 2 }, 4, vec![]);
    assert_eq!(c.actual_length, 4);
    assert!(c.data.is_empty());
}

#[test]
fn interfaces_claimed_and_released() {
    let ifaces = vec![vec![0u8, 0], vec![], vec![2u8]];
    assert_eq!(interfaces_to_claim(3, &ifaces), vec![0, 2]);
    assert_eq!(interfaces_to_claim(5, &ifaces), vec![0, 2]);
    assert_eq!(interfaces_to_claim(1, &ifaces), vec![0]);
    assert_eq!(interfaces_to_release(&ifaces), vec![0, 0, 2]);
    let _ = TransferError::Pipe;
}

#[test]
fn allowlist_filters_exports() {
    let mgr: UsbDeviceManager<u32> = UsbDeviceManager::new();
    let probed = vec![Some(info(1, 2, 0x046d, 0xc261)), Some(info(1, 3, 0x8087, 0x0024))];
    let all = mgr.list_exportable_devices(&probed, &vec![]);
    assert_eq!(all.len(), 2);
    let only = mgr.list_exportable_devices(&probed, &vec![(0x046d, 0xc261)]);
    assert_eq!(only.len(), 1);
    assert_eq!(only[0].busid_str(), "1-2");
    assert!(mgr.get_exportable_entry(&probed, "1-3", &vec![(0x046d, 0xc261)]).is_none());
    assert!(mgr.get_exportable_entry(&probed, "1-2", &vec![(0x046d, 0xc261)]).is_some());
    assert!(mgr.get_exportable_entry(&probed, "1-3", &vec![]).is_some());
    assert!(is_allowed(1, 2, &vec![]));
    assert!(!is_allowed(1, 2, &vec![(2, 1)]));
}
