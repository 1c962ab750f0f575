//! USB/IP wire structures: the operation header, the exported device
//! record, the URB submit command and its reply, with their encodings.
use vstd::prelude::*;
use vstd::array::array_as_slice;
use crate::wire::{
    be16, be16_at, be32, be32_at, find_byte, find_byte_exec, lemma_be16_roundtrip, lemma_be32_roundtrip,
    lemma_find_byte, push_all, push_be16, push_be32, read_be16, read_be32, string_from_utf8_lossy, utf8_lossy,
};

verus! {

/// Protocol version carried in every operation header (1.1.1).
pub const USBIP_VERSION: u16 = 0x0111;

/// TCP port of a USB/IP server.
pub const USBIP_PORT: u16 = 3240;

pub const OP_REQ_DEVLIST: u16 = 0x8005;

pub const OP_REP_DEVLIST: u16 = 0x0005;

pub const OP_REQ_IMPORT: u16 = 0x8003;

pub const OP_REP_IMPORT: u16 = 0x0003;

pub const USBIP_CMD_SUBMIT: u16 = 0x0001;

pub const USBIP_RET_SUBMIT: u16 = 0x0003;

pub const USBIP_CMD_UNLINK: u16 = 0x0002;

pub const USBIP_RET_UNLINK: u16 = 0x0004;

pub const STATUS_ST_OK: u32 = 0;

pub const STATUS_ST_NA: u32 = 1;

pub const STATUS_ST_DEV_BUSY: u32 = 2;

pub const STATUS_ST_DEV_ERR: u32 = 3;

pub const STATUS_ST_NODEV: u32 = 4;

pub const USBIP_DIR_OUT: u32 = 0;

pub const USBIP_DIR_IN: u32 = 1;

/// Transfer flag that marks a device-to-host URB.
pub const URB_DIR_IN: u32 = 0x200;

/// Length of a busid field on the wire.
pub const BUSID_SIZE: usize = 32;

/// Length of a sysfs path field on the wire.
pub const PATH_SIZE: usize = 256;

// ─── Errors ───────────────────────────────────────────────────────

/// Why a USB transfer failed (the failure classes of libusb).
#[derive(Debug, Clone, Copy, PartialEq, Eq, Structural)]
pub enum TransferError {
    Io,
    InvalidParam,
    Access,
    NoDevice,
    NotFound,
    Busy,
    Timeout,
    Overflow,
    Pipe,
    Interrupted,
    NoMem,
    NotSupported,
    BadDescriptor,
    Other,
}

/// Errors of the USB/IP bridge.
#[derive(Debug)]
pub enum UsbIpError {
    /// The platform or the host lacks what the operation needs.
    NotSupported(String),
    /// No device answers to the given bus id.
    DeviceNotFound(String),
    /// The peer sent something that is not USB/IP.
    Protocol(String),
    /// An I/O operation failed.
    Io(String),
    /// A USB transfer failed.
    Usb(TransferError),
}

/// The URB status (a negative errno) that reports a failed transfer.
pub open spec fn urb_status_spec(e: TransferError) -> i32 {
    match e {
        TransferError::Io => -71i32,
        TransferError::InvalidParam => -22i32,
        TransferError::Access => -13i32,
        TransferError::NoDevice => -19i32,
        TransferError::NotFound => -2i32,
        TransferError::Busy => -16i32,
        TransferError::Timeout => -110i32,
        TransferError::Overflow => -75i32,
        TransferError::Pipe => -32i32,
        TransferError::Interrupted => -4i32,
        TransferError::NoMem => -12i32,
        TransferError::NotSupported => -95i32,
        TransferError::BadDescriptor => -71i32,
        TransferError::Other => -71i32,
    }
}

/// Maps a failed transfer to the URB status sent back to the client.
pub fn urb_status(e: TransferError) -> (r: i32)
    ensures
        r == urb_status_spec(e),
        r < 0,
{
    match e {
        TransferError::Io => -71,
        TransferError::InvalidParam => -22,
        TransferError::Access => -13,
        TransferError::NoDevice => -19,
        TransferError::NotFound => -2,
        TransferError::Busy => -16,
        TransferError::Timeout => -110,
        TransferError::Overflow => -75,
        TransferError::Pipe => -32,
        TransferError::Interrupted => -4,
        TransferError::NoMem => -12,
        TransferError::NotSupported => -95,
        TransferError::BadDescriptor => -71,
        TransferError::Other => -71,
    }
}

// ─── Operation header ─────────────────────────────────────────────

/// The 8-byte header that starts every USB/IP operation.
#[derive(Debug, Clone, Copy, PartialEq, Eq, Structural)]
pub struct UsbIpHeader {
    pub version: u16,
    pub command: u16,
    pub status: u32,
}

impl UsbIpHeader {
    pub const SIZE: usize = 8;

    pub open spec fn spec_bytes(self) -> Seq<u8> {
        be16(self.version) + be16(self.command) + be32(self.status)
    }

    /// The header parsed from the first eight bytes of `s`.
    pub open spec fn spec_parse(s: Seq<u8>) -> Option<UsbIpHeader> {
        if s.len() >= 8 {
            Some(UsbIpHeader { version: be16_at(s, 0), command: be16_at(s, 2), status: be32_at(s, 4) })
        } else {
            None
        }
    }

    pub fn new(command: u16) -> (h: UsbIpHeader)
        ensures
            h == (UsbIpHeader { version: USBIP_VERSION, command, status: STATUS_ST_OK }),
    {
        UsbIpHeader { version: USBIP_VERSION, command, status: STATUS_ST_OK }
    }

    pub fn with_status(command: u16, status: u32) -> (h: UsbIpHeader)
        ensures
            h == (UsbIpHeader { version: USBIP_VERSION, command, status }),
    {
        UsbIpHeader { version: USBIP_VERSION, command, status }
    }

    pub fn write_to(&self, out: &mut Vec<u8>)
        ensures
            final(out)@ == old(out)@ + self.spec_bytes(),
    {
        push_be16(out, self.version);
        push_be16(out, self.command);
        push_be32(out, self.status);
        assert(out@ =~= old(out)@ + self.spec_bytes());
    }

    pub fn to_bytes(&self) -> (r: Vec<u8>)
        ensures
            r@ == self.spec_bytes(),
            r@.len() == Self::SIZE,
    {
        let mut out: Vec<u8> = Vec::new();
        self.write_to(&mut out);
        assert(out@ =~= self.spec_bytes());
        out
    }

    /// Parses a header from the start of `s` (`None` when `s` is shorter than a header).
    pub fn read_from_prefix(s: &[u8]) -> (r: Option<UsbIpHeader>)
        ensures
            r == Self::spec_parse(s@),
    {
        if s.len() < 8 {
            return None;
        }
        Some(UsbIpHeader { version: read_be16(s, 0), command: read_be16(s, 2), status: read_be32(s, 4) })
    }
}

/// Parsing the encoding of a header gives the header back.
pub proof fn lemma_header_roundtrip(h: UsbIpHeader, rest: Seq<u8>)
    ensures
        UsbIpHeader::spec_parse(h.spec_bytes() + rest) == Some(h),
{
    let s = h.spec_bytes() + rest;
    assert(s.subrange(0, 2) =~= be16(h.version));
    assert(s.subrange(2, 4) =~= be16(h.command));
    assert(s.subrange(4, 8) =~= be32(h.status));
    lemma_be16_roundtrip(h.version, s, 0);
    lemma_be16_roundtrip(h.command, s, 2);
    lemma_be32_roundtrip(h.status, s, 4);
}

// ─── Exported device record ───────────────────────────────────────

/// One exported device as the devlist and import replies carry it (312 bytes).
#[derive(Clone, Copy)]
pub struct UsbIpDeviceEntry {
    pub path: [u8; 256],
    pub busid: [u8; 32],
    pub busnum: u32,
    pub devnum: u32,
    pub speed: u32,
    pub id_vendor: u16,
    pub id_product: u16,
    pub bcd_device: u16,
    pub b_device_class: u8,
    pub b_device_sub_class: u8,
    pub b_device_protocol: u8,
    pub b_configuration_value: u8,
    pub b_num_configurations: u8,
    pub b_num_interfaces: u8,
}

/// The bytes of a NUL-padded text field up to its first NUL.
pub open spec fn nul_terminated(s: Seq<u8>) -> Seq<u8> {
    s.take(find_byte(s, 0))
}

impl UsbIpDeviceEntry {
    pub const SIZE: usize = 312;

    pub open spec fn spec_bytes(self) -> Seq<u8> {
        self.path@ + self.busid@ + be32(self.busnum) + be32(self.devnum) + be32(self.speed) + be16(
            self.id_vendor,
        ) + be16(self.id_product) + be16(self.bcd_device) + seq![
            self.b_device_class,
            self.b_device_sub_class,
            self.b_device_protocol,
            self.b_configuration_value,
            self.b_num_configurations,
            self.b_num_interfaces,
        ]
    }

    /// The busid text: the busid field up to its first NUL.
    pub open spec fn spec_busid(self) -> Seq<u8> {
        nul_terminated(self.busid@)
    }

    /// A record with every field zero.
    pub fn zeroed() -> (e: UsbIpDeviceEntry)
        ensures
            e.path@ == Seq::new(256, |i: int| 0u8),
            e.busid@ == Seq::new(32, |i: int| 0u8),
            e.busnum == 0 && e.devnum == 0 && e.speed == 0,
            e.id_vendor == 0 && e.id_product == 0 && e.bcd_device == 0,
            e.b_device_class == 0 && e.b_device_sub_class == 0 && e.b_device_protocol == 0,
            e.b_configuration_value == 0 && e.b_num_configurations == 0 && e.b_num_interfaces == 0,
    {
        let e = UsbIpDeviceEntry {
            path: [0u8; 256],
            busid: [0u8; 32],
            busnum: 0,
            devnum: 0,
            speed: 0,
            id_vendor: 0,
            id_product: 0,
            bcd_device: 0,
            b_device_class: 0,
            b_device_sub_class: 0,
            b_device_protocol: 0,
            b_configuration_value: 0,
            b_num_configurations: 0,
            b_num_interfaces: 0,
        };
        assert(e.path@ =~= Seq::new(256, |i: int| 0u8));
        assert(e.busid@ =~= Seq::new(32, |i: int| 0u8));
        e
    }

    pub fn vid(&self) -> (r: u16)
        ensures
            r == self.id_vendor,
    {
        self.id_vendor
    }

    pub fn pid(&self) -> (r: u16)
        ensures
            r == self.id_product,
    {
        self.id_product
    }

    pub fn speed_val(&self) -> (r: u32)
        ensures
            r == self.speed,
    {
        self.speed
    }

    /// The busid bytes, up to the first NUL of the field.
    pub fn busid_bytes(&self) -> (r: Vec<u8>)
        ensures
            r@ == self.spec_busid(),
    {
        let field = array_as_slice(&self.busid);
        let n = find_byte_exec(field, 0);
        proof {
            lemma_find_byte(self.busid@, 0);
        }
        let mut out: Vec<u8> = Vec::new();
        let mut i: usize = 0;
        while i < n
            invariant
                n == find_byte(self.busid@, 0),
                n <= 32,
                field@ == self.busid@,
                i <= n,
                out@ == self.busid@.take(i as int),
            decreases n - i,
        {
            out.push(field[i]);
            i = i + 1;
            assert(out@ =~= self.busid@.take(i as int));
        }
        out
    }

    /// The busid as text (lossy for bytes that are not UTF-8).
    pub fn busid_str(&self) -> (r: String)
        ensures
            r@ == utf8_lossy(self.spec_busid()),
            vstd::utf8::valid_utf8(self.spec_busid()) ==> vstd::utf8::encode_utf8(r@)
                == self.spec_busid(),
    {
        let b = self.busid_bytes();
        string_from_utf8_lossy(b.as_slice())
    }

    pub fn write_to(&self, out: &mut Vec<u8>)
        ensures
            final(out)@ == old(out)@ + self.spec_bytes(),
    {
        push_all(out, array_as_slice(&self.path));
        push_all(out, array_as_slice(&self.busid));
        push_be32(out, self.busnum);
        push_be32(out, self.devnum);
        push_be32(out, self.speed);
        push_be16(out, self.id_vendor);
        push_be16(out, self.id_product);
        push_be16(out, self.bcd_device);
        out.push(self.b_device_class);
        out.push(self.b_device_sub_class);
        out.push(self.b_device_protocol);
        out.push(self.b_configuration_value);
        out.push(self.b_num_configurations);
        out.push(self.b_num_interfaces);
        assert(out@ =~= old(out)@ + self.spec_bytes());
    }

    pub fn to_bytes(&self) -> (r: Vec<u8>)
        ensures
            r@ == self.spec_bytes(),
            r@.len() == Self::SIZE,
    {
        let mut out: Vec<u8> = Vec::new();
        self.write_to(&mut out);
        assert(out@ =~= self.spec_bytes());
        out
    }
}

// ─── URB submit and reply ─────────────────────────────────────────

/// The fields of a USBIP_CMD_SUBMIT that follow the operation header (44 bytes).
#[derive(Debug, Clone, Copy)]
pub struct UsbIpCmdSubmit {
    pub seqnum: u32,
    pub devid: u32,
    pub direction: u32,
    pub ep: u32,
    pub transfer_flags: u32,
    pub transfer_buffer_length: u32,
    pub start_frame: u32,
    pub number_of_packets: u32,
    pub interval: u32,
    pub setup: [u8; 8],
}

/// The fields of a USBIP_RET_SUBMIT that follow the operation header (44 bytes).
#[derive(Debug, Clone, Copy)]
pub struct UsbIpRetSubmit {
    pub seqnum: u32,
    pub devid: u32,
    pub direction: u32,
    pub ep: u32,
    pub status: u32,
    pub actual_length: u32,
    pub start_frame: u32,
    pub number_of_packets: u32,
    pub error_count: u32,
    pub setup: [u8; 8],
}

impl UsbIpCmdSubmit {
    pub const HEADER_SIZE: usize = 44;

    pub open spec fn spec_bytes(self) -> Seq<u8> {
        be32(self.seqnum) + be32(self.devid) + be32(self.direction) + be32(self.ep) + be32(
            self.transfer_flags,
        ) + be32(self.transfer_buffer_length) + be32(self.start_frame) + be32(
            self.number_of_packets,
        ) + be32(self.interval) + self.setup@
    }

    pub open spec fn spec_parse(s: Seq<u8>) -> Option<UsbIpCmdSubmit> {
        if s.len() >= 44 {
            Some(
                UsbIpCmdSubmit {
                    seqnum: be32_at(s, 0),
                    devid: be32_at(s, 4),
                    direction: be32_at(s, 8),
                    ep: be32_at(s, 12),
                    transfer_flags: be32_at(s, 16),
                    transfer_buffer_length: be32_at(s, 20),
                    start_frame: be32_at(s, 24),
                    number_of_packets: be32_at(s, 28),
                    interval: be32_at(s, 32),
                    setup: [s[36], s[37], s[38], s[39], s[40], s[41], s[42], s[43]],
                },
            )
        } else {
            None
        }
    }

    /// Parses the command from the start of `s` (`None` when `s` is too short).
    pub fn read_from_prefix(s: &[u8]) -> (r: Option<UsbIpCmdSubmit>)
        ensures
            r == Self::spec_parse(s@),
    {
        if s.len() < 44 {
            return None;
        }
        Some(
            UsbIpCmdSubmit {
                seqnum: read_be32(s, 0),
                devid: read_be32(s, 4),
                direction: read_be32(s, 8),
                ep: read_be32(s, 12),
                transfer_flags: read_be32(s, 16),
                transfer_buffer_length: read_be32(s, 20),
                start_frame: read_be32(s, 24),
                number_of_packets: read_be32(s, 28),
                interval: read_be32(s, 32),
                setup: [s[36], s[37], s[38], s[39], s[40], s[41], s[42], s[43]],
            },
        )
    }

    pub fn write_to(&self, out: &mut Vec<u8>)
        ensures
            final(out)@ == old(out)@ + self.spec_bytes(),
    {
        push_be32(out, self.seqnum);
        push_be32(out, self.devid);
        push_be32(out, self.direction);
        push_be32(out, self.ep);
        push_be32(out, self.transfer_flags);
        push_be32(out, self.transfer_buffer_length);
        push_be32(out, self.start_frame);
        push_be32(out, self.number_of_packets);
        push_be32(out, self.interval);
        push_all(out, array_as_slice(&self.setup));
        assert(out@ =~= old(out)@ + self.spec_bytes());
    }

    pub fn to_bytes(&self) -> (r: Vec<u8>)
        ensures
            r@ == self.spec_bytes(),
            r@.len() == Self::HEADER_SIZE,
    {
        let mut out: Vec<u8> = Vec::new();
        self.write_to(&mut out);
        assert(out@ =~= self.spec_bytes());
        out
    }

    /// Length of the transfer buffer the URB asks for.
    pub fn data_len(&self) -> (r: u32)
        ensures
            r == self.transfer_buffer_length,
    {
        self.transfer_buffer_length
    }

    pub open spec fn spec_is_in(self) -> bool {
        self.direction == USBIP_DIR_IN
    }

    /// The URB moves data from the device to the host.
    pub fn is_in(&self) -> (r: bool)
        ensures
            r == self.spec_is_in(),
    {
        self.direction == USBIP_DIR_IN
    }

    pub fn ep_num(&self) -> (r: u32)
        ensures
            r == self.ep,
    {
        self.ep
    }

    pub open spec fn spec_is_control(self) -> bool {
        self.ep == 0
    }

    /// The URB goes to the default control endpoint.
    pub fn is_control(&self) -> (r: bool)
        ensures
            r == self.spec_is_control(),
    {
        self.ep == 0
    }
}

/// Parsing the encoding of a submit command gives the command back.
pub proof fn lemma_cmd_submit_roundtrip(c: UsbIpCmdSubmit, rest: Seq<u8>)
    ensures
        UsbIpCmdSubmit::spec_parse(c.spec_bytes() + rest) == Some(c),
{
    let s = c.spec_bytes() + rest;
    assert(s.subrange(0, 4) =~= be32(c.seqnum));
    assert(s.subrange(4, 8) =~= be32(c.devid));
    assert(s.subrange(8, 12) =~= be32(c.direction));
    assert(s.subrange(12, 16) =~= be32(c.ep));
    assert(s.subrange(16, 20) =~= be32(c.transfer_flags));
    assert(s.subrange(20, 24) =~= be32(c.transfer_buffer_length));
    assert(s.subrange(24, 28) =~= be32(c.start_frame));
    assert(s.subrange(28, 32) =~= be32(c.number_of_packets));
    assert(s.subrange(32, 36) =~= be32(c.interval));
    lemma_be32_roundtrip(c.seqnum, s, 0);
    lemma_be32_roundtrip(c.devid, s, 4);
    lemma_be32_roundtrip(c.direction, s, 8);
    lemma_be32_roundtrip(c.ep, s, 12);
    lemma_be32_roundtrip(c.transfer_flags, s, 16);
    lemma_be32_roundtrip(c.transfer_buffer_length, s, 20);
    lemma_be32_roundtrip(c.start_frame, s, 24);
    lemma_be32_roundtrip(c.number_of_packets, s, 28);
    lemma_be32_roundtrip(c.interval, s, 32);
    broadcast use vstd::array::group_array_axioms;

    let parsed = UsbIpCmdSubmit::spec_parse(s).unwrap();
    assert(s.subrange(36, 44) =~= c.setup@);
    assert(parsed.setup@ =~= c.setup@);
    assert(parsed.setup == c.setup);
}

impl UsbIpRetSubmit {
    pub const HEADER_SIZE: usize = 44;

    pub open spec fn spec_bytes(self) -> Seq<u8> {
        be32(self.seqnum) + be32(self.devid) + be32(self.direction) + be32(self.ep) + be32(
            self.status,
        ) + be32(self.actual_length) + be32(self.start_frame) + be32(self.number_of_packets)
            + be32(self.error_count) + self.setup@
    }

    pub fn write_to(&self, out: &mut Vec<u8>)
        ensures
            final(out)@ == old(out)@ + self.spec_bytes(),
    {
        push_be32(out, self.seqnum);
        push_be32(out, self.devid);
        push_be32(out, self.direction);
        push_be32(out, self.ep);
        push_be32(out, self.status);
        push_be32(out, self.actual_length);
        push_be32(out, self.start_frame);
        push_be32(out, self.number_of_packets);
        push_be32(out, self.error_count);
        push_all(out, array_as_slice(&self.setup));
        assert(out@ =~= old(out)@ + self.spec_bytes());
    }

    pub fn to_bytes(&self) -> (r: Vec<u8>)
        ensures
            r@ == self.spec_bytes(),
            r@.len() == Self::HEADER_SIZE,
    {
        let mut out: Vec<u8> = Vec::new();
        self.write_to(&mut out);
        assert(out@ =~= self.spec_bytes());
        out
    }
}

// ─── Wire layouts ─────────────────────────────────────────────────

/// Every failure is reported to the client as a negative errno value.
pub proof fn law_urb_status_negative(e: TransferError)
    ensures
        urb_status_spec(e) < 0,
{
}

/// The 8-byte operation header: version at bytes 0..2, command at 2..4 and
/// status at 4..8, each big-endian.
pub proof fn law_header_layout(h: UsbIpHeader)
    ensures
        h.spec_bytes().len() == 8,
        h.spec_bytes().subrange(0, 2) == be16(h.version),
        h.spec_bytes().subrange(2, 4) == be16(h.command),
        h.spec_bytes().subrange(4, 8) == be32(h.status),
{
    let b = h.spec_bytes();
    assert(b.subrange(0, 2) =~= be16(h.version));
    assert(b.subrange(2, 4) =~= be16(h.command));
    assert(b.subrange(4, 8) =~= be32(h.status));
}

/// The 312-byte device record: path at 0..256, bus id at 256..288, then
/// big-endian busnum (288..292), devnum (292..296), speed (296..300),
/// idVendor (300..302), idProduct (302..304), bcdDevice (304..306), and the
/// class, subclass, protocol, configuration value, configuration count and
/// interface count bytes at 306 to 311.
pub proof fn law_device_record_layout(e: UsbIpDeviceEntry)
    ensures
        e.spec_bytes().len() == 312,
        e.spec_bytes().subrange(0, 256) == e.path@,
        e.spec_bytes().subrange(256, 288) == e.busid@,
        e.spec_bytes().subrange(288, 292) == be32(e.busnum),
        e.spec_bytes().subrange(292, 296) == be32(e.devnum),
        e.spec_bytes().subrange(296, 300) == be32(e.speed),
        e.spec_bytes().subrange(300, 302) == be16(e.id_vendor),
        e.spec_bytes().subrange(302, 304) == be16(e.id_product),
        e.spec_bytes().subrange(304, 306) == be16(e.bcd_device),
        e.spec_bytes()[306] == e.b_device_class,
        e.spec_bytes()[307] == e.b_device_sub_class,
        e.spec_bytes()[308] == e.b_device_protocol,
        e.spec_bytes()[309] == e.b_configuration_value,
        e.spec_bytes()[310] == e.b_num_configurations,
        e.spec_bytes()[311] == e.b_num_interfaces,
{
    let b = e.spec_bytes();
    assert(b.subrange(0, 256) =~= e.path@);
    assert(b.subrange(256, 288) =~= e.busid@);
    assert(b.subrange(288, 292) =~= be32(e.busnum));
    assert(b.subrange(292, 296) =~= be32(e.devnum));
    assert(b.subrange(296, 300) =~= be32(e.speed));
    assert(b.subrange(300, 302) =~= be16(e.id_vendor));
    assert(b.subrange(302, 304) =~= be16(e.id_product));
    assert(b.subrange(304, 306) =~= be16(e.bcd_device));
}

/// The 44 bytes of a submit command: seqnum, devid, direction, ep,
/// transfer_flags, transfer_buffer_length, start_frame, number_of_packets
/// and interval, big-endian, 4 bytes each from byte 0, then the setup
/// packet at 36..44.
pub proof fn law_cmd_submit_layout(c: UsbIpCmdSubmit)
    ensures
        c.spec_bytes().len() == 44,
        c.spec_bytes().subrange(0, 4) == be32(c.seqnum),
        c.spec_bytes().subrange(4, 8) == be32(c.devid),
        c.spec_bytes().subrange(8, 12) == be32(c.direction),
        c.spec_bytes().subrange(12, 16) == be32(c.ep),
        c.spec_bytes().subrange(16, 20) == be32(c.transfer_flags),
        c.spec_bytes().subrange(20, 24) == be32(c.transfer_buffer_length),
        c.spec_bytes().subrange(24, 28) == be32(c.start_frame),
        c.spec_bytes().subrange(28, 32) == be32(c.number_of_packets),
        c.spec_bytes().subrange(32, 36) == be32(c.interval),
        c.spec_bytes().subrange(36, 44) == c.setup@,
{
    let b = c.spec_bytes();
    assert(b.subrange(0, 4) =~= be32(c.seqnum));
    assert(b.subrange(4, 8) =~= be32(c.devid));
    assert(b.subrange(8, 12) =~= be32(c.direction));
    assert(b.subrange(12, 16) =~= be32(c.ep));
    assert(b.subrange(16, 20) =~= be32(c.transfer_flags));
    assert(b.subrange(20, 24) =~= be32(c.transfer_buffer_length));
    assert(b.subrange(24, 28) =~= be32(c.start_frame));
    assert(b.subrange(28, 32) =~= be32(c.number_of_packets));
    assert(b.subrange(32, 36) =~= be32(c.interval));
    assert(b.subrange(36, 44) =~= c.setup@);
}

/// The 44 bytes of a submit reply: seqnum, devid, direction, ep, status,
/// actual_length, start_frame, number_of_packets and error_count,
/// big-endian, 4 bytes each from byte 0, then the setup packet at 36..44.
pub proof fn law_ret_submit_layout(r: UsbIpRetSubmit)
    ensures
        r.spec_bytes().len() == 44,
        r.spec_bytes().subrange(0, 4) == be32(r.seqnum),
        r.spec_bytes().subrange(4, 8) == be32(r.devid),
        r.spec_bytes().subrange(8, 12) == be32(r.direction),
        r.spec_bytes().subrange(12, 16) == be32(r.ep),
        r.spec_bytes().subrange(16, 20) == be32(r.status),
        r.spec_bytes().subrange(20, 24) == be32(r.actual_length),
        r.spec_bytes().subrange(24, 28) == be32(r.start_frame),
        r.spec_bytes().subrange(28, 32) == be32(r.number_of_packets),
        r.spec_bytes().subrange(32, 36) == be32(r.error_count),
        r.spec_bytes().subrange(36, 44) == r.setup@,
{
    let b = r.spec_bytes();
    assert(b.subrange(0, 4) =~= be32(r.seqnum));
    assert(b.subrange(4, 8) =~= be32(r.devid));
    assert(b.subrange(8, 12) =~= be32(r.direction));
    assert(b.subrange(12, 16) =~= be32(r.ep));
    assert(b.subrange(16, 20) =~= be32(r.status));
    assert(b.subrange(20, 24) =~= be32(r.actual_length));
    assert(b.subrange(24, 28) =~= be32(r.start_frame));
    assert(b.subrange(28, 32) =~= be32(r.number_of_packets));
    assert(b.subrange(32, 36) =~= be32(r.error_count));
    assert(b.subrange(36, 44) =~= r.setup@);
}

/// The text of a NUL-padded field is the longest prefix without a NUL:
/// it holds no NUL, and the field ends or has a NUL right after it.
pub proof fn law_nul_terminated(s: Seq<u8>)
    ensures
        nul_terminated(s).len() <= s.len(),
        nul_terminated(s) == s.take(nul_terminated(s).len() as int),
        forall|i: int| 0 <= i < nul_terminated(s).len() ==> #[trigger] nul_terminated(s)[i] != 0u8,
        nul_terminated(s).len() == s.len() || s[nul_terminated(s).len() as int] == 0u8,
{
    crate::wire::lemma_find_byte(s, 0u8);
}

} // verus!
