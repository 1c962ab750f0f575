use usb_passthrough::protocol::{
    urb_status, TransferError, UsbIpCmdSubmit, UsbIpDeviceEntry, UsbIpHeader, UsbIpRetSubmit,
    OP_REQ_DEVLIST, STATUS_ST_DEV_BUSY, USBIP_VERSION,
};

#[test]
fn header_encodes_big_endian() {
    let h = UsbIpHeader::with_status(OP_REQ_DEVLIST, STATUS_ST_DEV_BUSY);
    assert_eq!(h.to_bytes(), vec![0x01, 0x11, 0x80, 0x05, 0, 0, 0, 2]);
    let h0 = UsbIpHeader::new(0x0003);
    assert_eq!(h0.version, USBIP_VERSION);
    assert_eq!(h0.status, 0);
}

#[test]
fn header_roundtrip_and_short_input() {
    let h = UsbIpHeader::with_status(0xabcd, 0x01020304);
    let mut bytes = h.to_bytes();
    bytes.push(0xff);
    assert_eq!(UsbIpHeader::read_from_prefix(&bytes), Some(h));
    assert_eq!(UsbIpHeader::read_from_prefix(&bytes[..7]), None);
}

fn sample_cmd() -> UsbIpCmdSubmit {
    UsbIpCmdSubmit {
        seqnum: 0x01020304,
        devid: 2,
        direction: 1,
        ep: 0,
        transfer_flags: 0x200,
        transfer_buffer_length: 18,
        start_frame: 5,
        number_of_packets: 6,
        interval: 7,
        setup: [0x80, 6, 0, 1, 0, 0, 18, 0],
    }
}

#[test]
fn cmd_submit_roundtrip() {
    let c = sample_cmd();
    let bytes = c.to_bytes();
    assert_eq!(bytes.len(), UsbIpCmdSubmit::HEADER_SIZE);
    assert_eq!(&bytes[..4], &[1, 2, 3, 4]);
    let p = UsbIpCmdSubmit::read_from_prefix(&bytes).unwrap();
    assert_eq!(p.seqnum, c.seqnum);
    assert_eq!(p.transfer_buffer_length, 18);
    assert_eq!(p.interval, 7);
    assert_eq!(p.setup, c.setup);
    assert!(p.is_in());
    assert!(p.is_control());
    assert_eq!(p.data_len(), 18);
    assert!(UsbIpCmdSubmit::read_from_prefix(&bytes[..43]).is_none());
}

#[test]
fn ret_submit_layout() {
    let r = UsbIpRetSubmit {
        seqnum: 1,
        devid: 2,
        direction: 0,
        ep: 3,
        status: (-32i32) as u32,
        actual_length: 4,
        start_frame: 0,
        number_of_packets: 0,
        error_count: 1,
        setup: [9; 8],
    };
    let b = r.to_bytes();
    assert_eq!(b.len(), 44);
    assert_eq!(&b[16..20], &[0xff, 0xff, 0xff, 0xe0]);
    assert_eq!(&b[32..36], &[0, 0, 0, 1]);
    assert_eq!(&b[36..], &[9; 8]);
}

#[test]
fn device_entry_layout_and_busid() {
    let mut e = UsbIpDeviceEntry::zeroed();
    e.busid[..3].copy_from_slice(b"2-5");
    e.busnum = 2;
    e.devnum = 5;
    e.id_vendor = 0x1234;
    e.id_product = 0xabcd;
    e.b_num_interfaces = 3;
    let b = e.to_bytes();
    assert_eq!(b.len(), UsbIpDeviceEntry::SIZE);
    assert_eq!(&b[256..259], b"2-5");
    assert_eq!(&b[288..292], &[0, 0, 0, 2]);
    assert_eq!(&b[300..302], &[0x12, 0x34]);
    assert_eq!(&b[302..304], &[0xab, 0xcd]);
    assert_eq!(b[311], 3);
    assert_eq!(e.busid_bytes(), b"2-5".to_vec());
    assert_eq!(e.busid_str(), "2-5");
    assert_eq!(e.vid(), 0x1234);
    assert_eq!(e.pid(), 0xabcd);
}

#[test]
fn busid_str_replaces_invalid_utf8() {
    let mut e = UsbIpDeviceEntry::zeroed();
    e.busid[0] = 0xff;
    e.busid[1] = b'1';
    assert_eq!(e.busid_str(), "\u{fffd}1");
}

#[test]
fn urb_status_of_each_failure() {
    assert_eq!(urb_status(TransferError::Io), -71);
    assert_eq!(urb_status(TransferError::InvalidParam), -22);
    assert_eq!(urb_status(TransferError::Access), -13);
    assert_eq!(urb_status(TransferError::NoDevice), -19);
    assert_eq!(urb_status(TransferError::NotFound), -2);
    assert_eq!(urb_status(TransferError::Busy), -16);
    assert_eq!(urb_status(TransferError::Timeout), -110);
    assert_eq!(urb_status(TransferError::Overflow), -75);
    assert_eq!(urb_status(TransferError::Pipe), -32);
    assert_eq!(urb_status(TransferError::Interrupted), -4);
    assert_eq!(urb_status(TransferError::NoMem), -12);
    assert_eq!(urb_status(TransferError::NotSupported), -95);
    assert_eq!(urb_status(TransferError::BadDescriptor), -71);
    assert_eq!(urb_status(TransferError::Other), -71);
}
