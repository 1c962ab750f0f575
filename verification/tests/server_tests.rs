use usb_passthrough::protocol::{
    TransferError, UsbIpCmdSubmit, UsbIpDeviceEntry, UsbIpError, UsbIpHeader, OP_REP_IMPORT,
    OP_REQ_DEVLIST, OP_REQ_IMPORT, USBIP_CMD_SUBMIT, USBIP_PORT,
};
use usb_passthrough::server::{
    classify_request, devlist_reply, import_busid, import_reply, ClientRequest, ExportTable,
    ImportStep, ServerConfig, UrbLoopAction, UrbSession,
};
use usb_passthrough::usb::UrbCompletion;

fn entry(busid: &str) -> UsbIpDeviceEntry {
    let mut e = UsbIpDeviceEntry::zeroed();
    e.busid[..busid.len()].copy_from_slice(busid.as_bytes());
    e.id_vendor = 0x1234;
    e
}

#[test]
fn default_config() {
    let c = ServerConfig::default();
    assert_eq!(c.bind_address, "0.0.0.0");
    assert_eq!(c.port, USBIP_PORT);
    assert_eq!(c.port, 3240);
    assert!(c.allowed_vid_pid.is_empty());
    assert!(c.require_confirmation);
    assert!(!c.encryption_enabled);
    assert!(c.tcp_nodelay);
}

#[test]
fn first_request_is_classified() {
    let h = |cmd: u16| UsbIpHeader::new(cmd).to_bytes();
    assert_eq!(classify_request(&h(OP_REQ_DEVLIST)).unwrap(), ClientRequest::Devlist);
    assert_eq!(classify_request(&h(OP_REQ_IMPORT)).unwrap(), ClientRequest::Import);
    assert_eq!(classify_request(&h(0x1234)).unwrap(), ClientRequest::Unknown(0x1234));
    assert!(matches!(classify_request(&[1, 2, 3]), Err(UsbIpError::Protocol(_))));
}

#[test]
fn devlist_reply_layout() {
    let empty = devlist_reply(&vec![]);
    assert_eq!(empty, vec![0x01, 0x11, 0x00, 0x05, 0, 0, 0, 0, 0, 0, 0, 0]);
    let two = devlist_reply(&vec![entry("1-1"), entry("1-2")]);
    assert_eq!(two.len(), 12 + 2 * 312);
    assert_eq!(&two[8..12], &[0, 0, 0, 2]);
    assert_eq!(&two[12 + 256..12 + 259], b"1-1");
    assert_eq!(&two[12 + 312 + 256..12 + 312 + 259], b"1-2");
}

#[test]
fn import_busid_stops_at_nul() {
    let mut field = [0u8; 32];
    field[..4].copy_from_slice(b"3-11");
    assert_eq!(import_busid(&field), "3-11");
    let full = [b'7'; 32];
    assert_eq!(import_busid(&full), "7".repeat(32));
}

#[test]
fn import_reply_layout() {
    let r = import_reply(&entry("1-4"), &[18, 1]);
    assert_eq!(&r[..8], &[0x01, 0x11, 0x00, 0x03, 0, 0, 0, 0]);
    assert_eq!(r.len(), 8 + 312 + 2);
    assert_eq!(&r[8 + 256..8 + 259], b"1-4");
    assert_eq!(&r[320..], &[18, 1]);
}

#[test]
fn one_client_per_device() {
    let mut t: ExportTable<&str> = ExportTable::new();
    match t.reserve("1-1", "peer-a", None) {
        ImportStep::NoDevice { reply } => assert_eq!(reply, vec![0x01, 0x11, 0x00, 0x03, 0, 0, 0, 4]),
        _ => panic!("missing device must be refused"),
    }
    assert!(!t.contains("1-1"));
    assert!(matches!(t.reserve("1-1", "peer-a", Some(entry("1-1"))), ImportStep::Reserved));
    assert!(t.contains("1-1"));
    match t.reserve("1-1", "peer-b", Some(entry("1-1"))) {
        ImportStep::Busy { reply } => {
            assert_eq!(reply, UsbIpHeader::with_status(OP_REP_IMPORT, 2).to_bytes());
            assert_eq!(reply, vec![0x01, 0x11, 0x00, 0x03, 0, 0, 0, 2]);
        },
        _ => panic!("second import must be busy"),
    }
    let (peer, _) = t.release("1-1").unwrap();
    assert_eq!(peer, "peer-a");
    assert!(!t.contains("1-1"));
    assert!(matches!(t.reserve("1-1", "peer-b", Some(entry("1-1"))), ImportStep::Reserved));
    assert!(t.release("9-9").is_none());
}

fn submit(direction: u32, len: u32) -> UsbIpCmdSubmit {
    UsbIpCmdSubmit {
        seqnum: 0x11223344,
        devid: 0x00010002,
        direction,
        ep: 1,
        transfer_flags: 0,
        transfer_buffer_length: len,
        start_frame: 7,
        number_of_packets: 8,
        interval: 9,
        setup: [1, 2, 3, 4, 5, 6, 7, 8],
    }
}

#[test]
fn urb_loop_decisions() {
    assert_eq!(UrbSession::next_action(None), UrbLoopAction::Finish);
    assert_eq!(UrbSession::next_action(Some(&[0, 1])), UrbLoopAction::Finish);
    let h = UsbIpHeader::new(USBIP_CMD_SUBMIT).to_bytes();
    assert_eq!(UrbSession::next_action(Some(&h)), UrbLoopAction::ReadSubmit);
    let other = UsbIpHeader::new(0x0002).to_bytes();
    assert_eq!(UrbSession::next_action(Some(&other)), UrbLoopAction::Ignore(2));
    assert_eq!(UrbSession::out_data_len(&submit(0, 16)), 16);
    assert_eq!(UrbSession::out_data_len(&submit(1, 16)), 0);
    let bytes = submit(0, 3).to_bytes();
    assert_eq!(UrbSession::parse_submit(&bytes).unwrap().seqnum, 0x11223344);
    assert!(matches!(UrbSession::parse_submit(&bytes[..10]), Err(UsbIpError::Protocol(_))));
}

#[test]
fn urb_reply_on_success_and_failure() {
    let mut s = UrbSession::new();
    let ok = s.complete(
        &submit(1, 4),
        Ok(UrbCompletion { status: 0, actual_length: 2, data: vec![0xaa, 0xbb] }),
    );
    assert_eq!(s.seqnum, 1);
    assert_eq!(&ok[..8], &[0x01, 0x11, 0x00, 0x03, 0, 0, 0, 0]);
    assert_eq!(&ok[8..12], &[0x11, 0x22, 0x33, 0x44]);
    assert_eq!(&ok[12..16], &[0, 1, 0, 2]);
    assert_eq!(&ok[24..28], &[0, 0, 0, 0]);
    assert_eq!(&ok[28..32], &[0, 0, 0, 2]);
    assert_eq!(&ok[32..36], &[0, 0, 0, 7]);
    assert_eq!(&ok[40..44], &[0, 0, 0, 0]);
    assert_eq!(&ok[44..52], &[1, 2, 3, 4, 5, 6, 7, 8]);
    assert_eq!(&ok[52..], &[0xaa, 0xbb]);

    let err = s.complete(&submit(1, 4), Err(UsbIpError::Usb(TransferError::Pipe)));
    assert_eq!(err.len(), 52);
    assert_eq!(&err[24..28], &[0xff, 0xff, 0xff, 0xe0]);
    assert_eq!(&err[28..32], &[0, 0, 0, 0]);
    assert_eq!(&err[40..44], &[0, 0, 0, 1]);
    let other = s.complete(&submit(0, 4), Err(UsbIpError::DeviceNotFound("1-1".to_string())));
    assert_eq!(&other[24..28], &(-71i32 as u32).to_be_bytes());
    assert_eq!(s.seqnum, 3);
    let mut w = UrbSession { seqnum: u32::MAX };
    let _ = w.complete(&submit(0, 0), Ok(UrbCompletion { status: 0, actual_length: 0, data: vec![] }));
    assert_eq!(w.seqnum, 0);
}

/// Runs the forwarding decisions over a whole byte stream, as the
/// connection loop does, with a fixed outcome per URB.
fn run_loop(stream: &[u8], outcomes: &mut Vec<UrbCompletion>) -> Vec<u8> {
    let mut session = UrbSession::new();
    let mut replies = Vec::new();
    let mut pos = 0;
    loop {
        let header = if pos + 8 <= stream.len() { Some(&stream[pos..pos + 8]) } else { None };
        match UrbSession::next_action(header) {
            UrbLoopAction::Finish => break,
            UrbLoopAction::Ignore(_) => pos += 8,
            UrbLoopAction::ReadSubmit => {
                pos += 8;
                if pos + 44 > stream.len() {
                    break;
                }
                let cmd = UrbSession::parse_submit(&stream[pos..pos + 44]).unwrap();
                pos += 44;
                let n = UrbSession::out_data_len(&cmd);
                if pos + n > stream.len() {
                    break;
                }
                pos += n;
                let outcome = outcomes.remove(0);
                replies.extend(session.complete(&cmd, Ok(outcome)));
            },
        }
    }
    replies
}

#[test]
fn urb_stream_gets_one_reply_per_submit_in_order() {
    let mut first = submit(0, 3);
    first.seqnum = 1;
    let mut second = submit(1, 8);
    second.seqnum = 2;
    let mut stream = Vec::new();
    stream.extend(UsbIpHeader::new(USBIP_CMD_SUBMIT).to_bytes());
    stream.extend(first.to_bytes());
    stream.extend([9, 9, 9]);
    stream.extend(UsbIpHeader::new(0x0002).to_bytes());
    stream.extend(UsbIpHeader::new(USBIP_CMD_SUBMIT).to_bytes());
    stream.extend(second.to_bytes());
    let mut outcomes = vec![
        UrbCompletion { status: 0, actual_length: 3, data: vec![] },
        UrbCompletion { status: 0, actual_length: 1, data: vec![0x42] },
    ];
    let replies = run_loop(&stream, &mut outcomes);
    assert_eq!(replies.len(), 52 + 53);
    assert_eq!(&replies[8..12], &[0, 0, 0, 1]);
    assert_eq!(&replies[28..32], &[0, 0, 0, 3]);
    assert_eq!(&replies[52 + 8..52 + 12], &[0, 0, 0, 2]);
    assert_eq!(replies[52 + 52], 0x42);
}
