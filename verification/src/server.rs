//! The server's side of a USB/IP connection: configuration, what a client's
//! first request asks for, the device list reply, the import handshake with
//! its one-client-per-device export table, and the URB forwarding loop.
use vstd::prelude::*;
use vstd::utf8::{encode_utf8, valid_utf8};
use vstd::string::StringSliceAdditionalSpecFns;
use crate::protocol::{
    OP_REP_DEVLIST, OP_REP_IMPORT, OP_REQ_DEVLIST, OP_REQ_IMPORT, STATUS_ST_DEV_BUSY, STATUS_ST_NODEV, USBIP_CMD_SUBMIT,
    USBIP_PORT, USBIP_RET_SUBMIT, USBIP_VERSION, TransferError, UsbIpCmdSubmit, UsbIpDeviceEntry,
    UsbIpError, UsbIpHeader, UsbIpRetSubmit, law_device_record_layout, law_ret_submit_layout,
    law_urb_status_negative, lemma_cmd_submit_roundtrip, lemma_header_roundtrip,
    nul_terminated, urb_status, urb_status_spec,
};
use crate::table::BusidTable;
use crate::usb::{UrbCompletion, slice_to_vec};
use crate::wire::{be32, find_byte_exec, lemma_find_byte, push_all, push_be32, string_from_utf8_lossy, utf8_lossy};

verus! {

// ─── Configuration ────────────────────────────────────────────────

/// Server settings.
#[derive(Debug, Clone)]
pub struct ServerConfig {
    pub bind_address: String,
    pub port: u16,
    /// Vendor/product pairs that may be exported (empty: all).
    pub allowed_vid_pid: Vec<(u16, u16)>,
    pub require_confirmation: bool,
    pub encryption_enabled: bool,
    pub tcp_nodelay: bool,
}

impl Default for ServerConfig {
    /// Listen on every interface at the USB/IP port, export everything,
    /// ask for confirmation, no encryption, no Nagle delay.
    fn default() -> (c: Self)
        ensures
            c.bind_address@ == "0.0.0.0"@,
            c.port == USBIP_PORT,
            c.allowed_vid_pid@.len() == 0,
            c.require_confirmation,
            !c.encryption_enabled,
            c.tcp_nodelay,
    {
        ServerConfig {
            bind_address: "0.0.0.0".to_owned(),
            port: USBIP_PORT,
            allowed_vid_pid: Vec::new(),
            require_confirmation: true,
            encryption_enabled: false,
            tcp_nodelay: true,
        }
    }
}

// ─── First request ────────────────────────────────────────────────

/// What a client's first operation asks for.
#[derive(Debug, Clone, Copy, PartialEq, Eq, Structural)]
pub enum ClientRequest {
    Devlist,
    Import,
    /// Any other command; the server logs it and closes the connection.
    Unknown(u16),
}

pub open spec fn classify_spec(command: u16) -> ClientRequest {
    if command == OP_REQ_DEVLIST {
        ClientRequest::Devlist
    } else if command == OP_REQ_IMPORT {
        ClientRequest::Import
    } else {
        ClientRequest::Unknown(command)
    }
}

/// OP_REQ_DEVLIST (0x8005) asks for the device list, OP_REQ_IMPORT
/// (0x8003) for an import; any other command is unknown and kept as it is.
pub proof fn law_classify_commands(command: u16)
    ensures
        classify_spec(command) is Devlist <==> command == 0x8005,
        classify_spec(command) is Import <==> command == 0x8003,
        classify_spec(command) matches ClientRequest::Unknown(c) ==> c == command,
{
}

/// Reads the first operation header; `Protocol` error when it is too short.
pub fn classify_request(header: &[u8]) -> (r: Result<ClientRequest, UsbIpError>)
    ensures
        r is Ok <==> header@.len() >= UsbIpHeader::SIZE,
        r matches Ok(k) ==> k == classify_spec(UsbIpHeader::spec_parse(header@).unwrap().command),
        r matches Err(e) ==> e is Protocol,
{
    match UsbIpHeader::read_from_prefix(header) {
        Some(h) => {
            if h.command == OP_REQ_DEVLIST {
                Ok(ClientRequest::Devlist)
            } else if h.command == OP_REQ_IMPORT {
                Ok(ClientRequest::Import)
            } else {
                Ok(ClientRequest::Unknown(h.command))
            }
        },
        None => Err(UsbIpError::Protocol("invalid header".to_owned())),
    }
}

// ─── Device list ──────────────────────────────────────────────────

pub open spec fn entries_bytes(s: Seq<UsbIpDeviceEntry>) -> Seq<u8>
    decreases s.len(),
{
    if s.len() == 0 {
        Seq::empty()
    } else {
        entries_bytes(s.drop_last()) + s.last().spec_bytes()
    }
}

/// The OP_REP_DEVLIST reply: header, device count, then each record.
pub open spec fn devlist_reply_spec(devices: Seq<UsbIpDeviceEntry>) -> Seq<u8> {
    UsbIpHeader { version: USBIP_VERSION, command: OP_REP_DEVLIST, status: 0 }.spec_bytes() + be32(
        devices.len() as u32,
    ) + entries_bytes(devices)
}

/// Builds the reply to OP_REQ_DEVLIST.
pub fn devlist_reply(devices: &Vec<UsbIpDeviceEntry>) -> (r: Vec<u8>)
    requires
        devices@.len() <= u32::MAX,
    ensures
        r@ == devlist_reply_spec(devices@),
        r@.len() == 12 + 312 * devices@.len(),
{
    let mut reply: Vec<u8> = Vec::new();
    let header = UsbIpHeader::new(OP_REP_DEVLIST);
    header.write_to(&mut reply);
    push_be32(&mut reply, devices.len() as u32);
    let ghost start = reply@;
    let mut i: usize = 0;
    while i < devices.len()
        invariant
            i <= devices@.len(),
            start.len() == 12,
            reply@ == start + entries_bytes(devices@.take(i as int)),
            entries_bytes(devices@.take(i as int)).len() == 312 * i,
        decreases devices.len() - i,
    {
        devices[i].write_to(&mut reply);
        proof {
            assert(devices@.take(i + 1).drop_last() =~= devices@.take(i as int));
            assert(reply@ =~= start + entries_bytes(devices@.take(i + 1)));
        }
        i = i + 1;
    }
    assert(devices@.take(i as int) =~= devices@);
    reply
}

// ─── Import ───────────────────────────────────────────────────────

/// The bus id an OP_REQ_IMPORT asks for: its 32-byte field up to the first
/// NUL, as text (lossy for bytes that are not UTF-8).
pub fn import_busid(field: &[u8; 32]) -> (r: String)
    ensures
        r@ == utf8_lossy(nul_terminated(field@)),
        valid_utf8(nul_terminated(field@)) ==> encode_utf8(r@) == nul_terminated(field@),
{
    let bytes = vstd::array::array_as_slice(field);
    let n = find_byte_exec(bytes, 0u8);
    proof {
        lemma_find_byte(field@, 0u8);
    }
    let text = &bytes[0..n];
    assert(text@ =~= nul_terminated(field@));
    string_from_utf8_lossy(text)
}

/// The reply that refuses an import because another client holds the device.
pub open spec fn busy_reply_spec() -> Seq<u8> {
    UsbIpHeader { version: USBIP_VERSION, command: OP_REP_IMPORT, status: STATUS_ST_DEV_BUSY }.spec_bytes()
}

/// The reply that refuses an import because no device has the bus id.
pub open spec fn nodev_reply_spec() -> Seq<u8> {
    UsbIpHeader { version: USBIP_VERSION, command: OP_REP_IMPORT, status: STATUS_ST_NODEV }.spec_bytes()
}

/// The OP_REP_IMPORT that accepts an import: header, device record, descriptor tree.
pub open spec fn import_reply_spec(entry: UsbIpDeviceEntry, descriptors: Seq<u8>) -> Seq<u8> {
    UsbIpHeader { version: USBIP_VERSION, command: OP_REP_IMPORT, status: 0 }.spec_bytes()
        + entry.spec_bytes() + descriptors
}

pub fn import_reply(entry: &UsbIpDeviceEntry, descriptors: &[u8]) -> (r: Vec<u8>)
    ensures
        r@ == import_reply_spec(*entry, descriptors@),
{
    let mut reply: Vec<u8> = Vec::new();
    UsbIpHeader::new(OP_REP_IMPORT).write_to(&mut reply);
    entry.write_to(&mut reply);
    push_all(&mut reply, descriptors);
    reply
}

proof fn lemma_entries_bytes(s: Seq<UsbIpDeviceEntry>, k: int)
    requires
        0 <= k < s.len(),
    ensures
        entries_bytes(s).len() == 312 * s.len(),
        entries_bytes(s).subrange(312 * k, 312 * k + 312) == s[k].spec_bytes(),
    decreases s.len(),
{
    law_device_record_layout(s.last());
    let init = s.drop_last();
    if init.len() > 0 {
        lemma_entries_bytes(init, if k < init.len() { k } else { 0 });
    } else {
        assert(entries_bytes(init).len() == 0);
    }
    let b = entries_bytes(s);
    assert(b == entries_bytes(init) + s.last().spec_bytes());
    if k < init.len() {
        assert(init[k] == s[k]);
        assert(b.subrange(312 * k, 312 * k + 312) =~= entries_bytes(init).subrange(312 * k, 312 * k + 312));
    } else {
        assert(b.subrange(312 * k, 312 * k + 312) =~= s.last().spec_bytes());
    }
}

/// The device list reply: an OP_REP_DEVLIST header (version 1.1.1, status
/// 0), the device count big-endian at bytes 8..12, then the k-th device's
/// 312-byte record at 12 + 312 k, for each device in order.
pub proof fn law_devlist_reply_layout(devices: Seq<UsbIpDeviceEntry>, k: int)
    requires
        devices.len() <= u32::MAX,
        0 <= k < devices.len(),
    ensures
        devlist_reply_spec(devices).len() == 12 + 312 * devices.len(),
        devlist_reply_spec(devices).subrange(0, 8) == seq![0x01u8, 0x11, 0x00, 0x05, 0, 0, 0, 0],
        devlist_reply_spec(devices).subrange(8, 12) == be32(devices.len() as u32),
        devlist_reply_spec(devices).subrange(12 + 312 * k, 12 + 312 * k + 312) == devices[k].spec_bytes(),
{
    lemma_entries_bytes(devices, k);
    let h = UsbIpHeader { version: USBIP_VERSION, command: OP_REP_DEVLIST, status: 0 }.spec_bytes();
    assert(h =~= seq![0x01u8, 0x11, 0x00, 0x05, 0, 0, 0, 0]);
    let r = devlist_reply_spec(devices);
    assert(r.subrange(0, 8) =~= h);
    assert(r.subrange(8, 12) =~= be32(devices.len() as u32));
    assert(r.subrange(12 + 312 * k, 12 + 312 * k + 312) =~= entries_bytes(devices).subrange(
        312 * k,
        312 * k + 312,
    ));
}

/// The reply that accepts an import: an OP_REP_IMPORT header (version
/// 1.1.1, status 0), the 312-byte device record, then the descriptor tree
/// unchanged.
pub proof fn law_import_reply_layout(entry: UsbIpDeviceEntry, descriptors: Seq<u8>)
    ensures
        import_reply_spec(entry, descriptors).len() == 320 + descriptors.len(),
        import_reply_spec(entry, descriptors).subrange(0, 8) == seq![0x01u8, 0x11, 0x00, 0x03, 0, 0, 0, 0],
        import_reply_spec(entry, descriptors).subrange(8, 320) == entry.spec_bytes(),
        import_reply_spec(entry, descriptors).skip(320) == descriptors,
{
    law_device_record_layout(entry);
    let h = UsbIpHeader { version: USBIP_VERSION, command: OP_REP_IMPORT, status: 0 }.spec_bytes();
    assert(h =~= seq![0x01u8, 0x11, 0x00, 0x03, 0, 0, 0, 0]);
    let r = import_reply_spec(entry, descriptors);
    assert(r.subrange(0, 8) =~= h);
    assert(r.subrange(8, 320) =~= entry.spec_bytes());
    assert(r.skip(320) =~= descriptors);
}

/// What an import request comes to.
pub enum ImportStep {
    /// No (exportable) device has the bus id: send `reply` and close.
    NoDevice { reply: Vec<u8> },
    /// Another client holds the device: send `reply` and close.
    Busy { reply: Vec<u8> },
    /// The device is now exported to this client.
    Reserved,
}

/// What the export table becomes, and what the request comes to, when a
/// client asks to import the device `busid` (`entry` is its record, `None`
/// when no device has that bus id).
pub open spec fn reserve_spec<P>(
    exports: Map<Seq<u8>, (P, UsbIpDeviceEntry)>,
    busid: Seq<u8>,
    peer: P,
    entry: Option<UsbIpDeviceEntry>,
) -> (Map<Seq<u8>, (P, UsbIpDeviceEntry)>, ReserveOutcome) {
    match entry {
        None => (exports, ReserveOutcome::NotFound),
        Some(e) => if exports.dom().contains(busid) {
            (exports, ReserveOutcome::Busy)
        } else {
            (exports.insert(busid, (peer, e)), ReserveOutcome::Reserved)
        },
    }
}

/// The three outcomes of an import request.
pub enum ReserveOutcome {
    NotFound,
    Busy,
    Reserved,
}

/// Active exports: bus id to the client that imported it and its record.
pub struct ExportTable<P> {
    exports: BusidTable<(P, UsbIpDeviceEntry)>,
}

impl<P> ExportTable<P> {
    pub closed spec fn view(&self) -> Map<Seq<u8>, (P, UsbIpDeviceEntry)> {
        self.exports.view()
    }

    pub closed spec fn wf(&self) -> bool {
        self.exports.wf()
    }

    pub fn new() -> (t: Self)
        ensures
            t.wf(),
            t.view() == Map::<Seq<u8>, (P, UsbIpDeviceEntry)>::empty(),
    {
        ExportTable { exports: BusidTable::new() }
    }

    pub fn contains(&self, busid: &str) -> (r: bool)
        requires
            self.wf(),
        ensures
            r == self.view().dom().contains(busid.spec_bytes()),
    {
        self.exports.contains_key(busid.as_bytes())
    }

    /// Handles an import request for `busid` from `peer`: `NoDevice` (with
    /// the NODEV reply) when `entry` is `None`; `Busy` (with the busy reply)
    /// when another client holds the device; otherwise records the export.
    pub fn reserve(&mut self, busid: &str, peer: P, entry: Option<UsbIpDeviceEntry>) -> (r:
        ImportStep)
        requires
            old(self).wf(),
        ensures
            final(self).wf(),
            final(self).view() == reserve_spec(old(self).view(), busid.spec_bytes(), peer, entry).0,
            match reserve_spec(old(self).view(), busid.spec_bytes(), peer, entry).1 {
                ReserveOutcome::NotFound => r matches ImportStep::NoDevice { reply } && reply@
                    == nodev_reply_spec(),
                ReserveOutcome::Busy => r matches ImportStep::Busy { reply } && reply@
                    == busy_reply_spec(),
                ReserveOutcome::Reserved => r matches ImportStep::Reserved,
            },
            forall|other: Seq<u8>|
                #![trigger final(self).view().dom().contains(other)]
                #![trigger old(self).view().dom().contains(other)]
                other != busid.spec_bytes() ==> (final(self).view().dom().contains(other)
                    == old(self).view().dom().contains(other) && (old(self).view().dom().contains(other)
                    ==> final(self).view()[other] == old(self).view()[other])),
            entry is None ==> r is NoDevice && final(self).view() == old(self).view(),
            entry is Some && old(self).view().dom().contains(busid.spec_bytes()) ==> r is Busy
                && final(self).view() == old(self).view(),
            entry is Some && !old(self).view().dom().contains(busid.spec_bytes()) ==> r is Reserved
                && final(self).view().dom().contains(busid.spec_bytes()) && final(self).view()[busid.spec_bytes()]
                == (peer, entry.unwrap()),
            r matches ImportStep::Busy { reply } ==> reply@ == seq![0x01u8, 0x11, 0x00, 0x03, 0, 0, 0, 2],
            r matches ImportStep::NoDevice { reply } ==> reply@ == seq![0x01u8, 0x11, 0x00, 0x03, 0, 0, 0, 4],
    {
        let e = match entry {
            Some(e) => e,
            None => {
                let reply = UsbIpHeader::with_status(OP_REP_IMPORT, STATUS_ST_NODEV).to_bytes();
                return ImportStep::NoDevice { reply };
            },
        };
        if self.exports.contains_key(busid.as_bytes()) {
            let reply = UsbIpHeader::with_status(OP_REP_IMPORT, STATUS_ST_DEV_BUSY).to_bytes();
            return ImportStep::Busy { reply };
        }
        let _ = self.exports.insert(slice_to_vec(busid.as_bytes()), (peer, e));
        ImportStep::Reserved
    }

    /// Ends the export of `busid` (the client went away).
    pub fn release(&mut self, busid: &str) -> (r: Option<(P, UsbIpDeviceEntry)>)
        requires
            old(self).wf(),
        ensures
            final(self).wf(),
            final(self).view() == old(self).view().remove(busid.spec_bytes()),
            r is Some <==> old(self).view().dom().contains(busid.spec_bytes()),
            r matches Some(v) ==> v == old(self).view()[busid.spec_bytes()],
    {
        self.exports.remove(busid.as_bytes())
    }
}

/// Reserving a bus id leaves every other bus id's export as it was; on
/// success the new export is the only change.
pub proof fn law_reserve_keeps_other_exports<P>(
    exports: Map<Seq<u8>, (P, UsbIpDeviceEntry)>,
    busid: Seq<u8>,
    peer: P,
    entry: Option<UsbIpDeviceEntry>,
    other: Seq<u8>,
)
    requires
        other != busid,
    ensures
        reserve_spec(exports, busid, peer, entry).0.dom().contains(other) == exports.dom().contains(other),
        exports.dom().contains(other) ==> reserve_spec(exports, busid, peer, entry).0[other]
            == exports[other],
        reserve_spec(exports, busid, peer, entry).1 is Reserved ==> reserve_spec(exports, busid, peer, entry).0.dom()
            == exports.dom().insert(busid),
{
    let after = reserve_spec(exports, busid, peer, entry).0;
    if reserve_spec(exports, busid, peer, entry).1 is Reserved {
        assert(after.dom() =~= exports.dom().insert(busid));
    }
}

/// The busy and no-device replies are OP_REP_IMPORT headers of protocol
/// version 1.1.1 with status ST_DEV_BUSY (2) and ST_NODEV (4).
pub proof fn law_refusal_replies()
    ensures
        busy_reply_spec() == seq![0x01u8, 0x11, 0x00, 0x03, 0, 0, 0, 2],
        nodev_reply_spec() == seq![0x01u8, 0x11, 0x00, 0x03, 0, 0, 0, 4],
{
    assert(busy_reply_spec() =~= seq![0x01u8, 0x11, 0x00, 0x03, 0, 0, 0, 2]);
    assert(nodev_reply_spec() =~= seq![0x01u8, 0x11, 0x00, 0x03, 0, 0, 0, 4]);
}

/// A device is exported to one client at a time: once an import of `busid`
/// succeeds, every further import of it is refused as busy until the export
/// ends, and after it ends the device can be imported again.
pub proof fn law_one_client_per_device<P>(
    exports: Map<Seq<u8>, (P, UsbIpDeviceEntry)>,
    busid: Seq<u8>,
    first: P,
    second: P,
    e1: UsbIpDeviceEntry,
    e2: UsbIpDeviceEntry,
)
    requires
        reserve_spec(exports, busid, first, Some(e1)).1 is Reserved,
    ensures
        ({
            let after = reserve_spec(exports, busid, first, Some(e1)).0;
            &&& reserve_spec(after, busid, second, Some(e2)).1 is Busy
            &&& reserve_spec(after, busid, second, Some(e2)).0 == after
            &&& after[busid] == (first, e1)
            &&& reserve_spec(after.remove(busid), busid, second, Some(e2)).1 is Reserved
        }),
{
}

// ─── URB forwarding ───────────────────────────────────────────────

/// What the forwarding loop does with the next operation header.
#[derive(Debug, Clone, Copy, PartialEq, Eq, Structural)]
pub enum UrbLoopAction {
    /// The client went away (or sent no header): end the export.
    Finish,
    /// A USBIP_CMD_SUBMIT: read its 44 command bytes.
    ReadSubmit,
    /// Any other command: skip it.
    Ignore(u16),
}

/// State of the forwarding loop of one imported device.
pub struct UrbSession {
    /// Number of URBs forwarded so far (wrapping).
    pub seqnum: u32,
}

/// The reply to a forwarded URB.
pub open spec fn ret_submit_spec(cmd: UsbIpCmdSubmit, status: i32, actual_length: u32, error_count: u32) -> UsbIpRetSubmit {
    UsbIpRetSubmit {
        seqnum: cmd.seqnum,
        devid: cmd.devid,
        direction: cmd.direction,
        ep: cmd.ep,
        status: status as u32,
        actual_length,
        start_frame: cmd.start_frame,
        number_of_packets: cmd.number_of_packets,
        error_count,
        setup: cmd.setup,
    }
}

/// The URB status that reports an error of the URB's execution.
pub open spec fn failure_status(e: UsbIpError) -> i32 {
    match e {
        UsbIpError::Usb(t) => urb_status_spec(t),
        _ => urb_status_spec(TransferError::Other),
    }
}

/// USBIP_RET_SUBMIT for a URB: on success the status, length and IN data
/// of the transfer; on failure the failure's status, length 0, one error.
pub open spec fn urb_reply_spec(cmd: UsbIpCmdSubmit, result: Result<UrbCompletion, UsbIpError>) -> Seq<u8> {
    let header = UsbIpHeader { version: USBIP_VERSION, command: USBIP_RET_SUBMIT, status: 0 };
    match result {
        Ok(c) => header.spec_bytes() + ret_submit_spec(cmd, c.status, c.actual_length, 0).spec_bytes()
            + c.data@,
        Err(e) => header.spec_bytes() + ret_submit_spec(cmd, failure_status(e), 0, 1).spec_bytes(),
    }
}

/// What the forwarding loop does with the operation header `h`.
pub open spec fn header_action(h: Seq<u8>) -> UrbLoopAction {
    match UsbIpHeader::spec_parse(h) {
        None => UrbLoopAction::Finish,
        Some(p) => if p.command == USBIP_CMD_SUBMIT {
            UrbLoopAction::ReadSubmit
        } else {
            UrbLoopAction::Ignore(p.command)
        },
    }
}

/// How many data bytes follow a submit command on the wire.
pub open spec fn out_len_spec(cmd: UsbIpCmdSubmit) -> usize {
    if cmd.spec_is_in() {
        0
    } else {
        cmd.transfer_buffer_length as usize
    }
}

/// A header whose command field (bytes 2..4, big-endian) is 1
/// (USBIP_CMD_SUBMIT) starts a submit; any other complete header is
/// skipped under its command; fewer than 8 bytes end the loop.
pub proof fn law_header_action(h: Seq<u8>)
    ensures
        h.len() < 8 ==> header_action(h) is Finish,
        h.len() >= 8 ==> (header_action(h) is ReadSubmit <==> (h[2] == 0 && h[3] == 1)),
        h.len() >= 8 && !(h[2] == 0 && h[3] == 1) ==> header_action(h) == UrbLoopAction::Ignore(
            (h[2] as int * 256 + h[3] as int) as u16,
        ),
{
}

/// Data follows a submit only for an OUT URB (direction 0): exactly its
/// transfer buffer length; an IN URB (direction 1) carries none.
pub proof fn law_out_data_only_for_out(cmd: UsbIpCmdSubmit)
    ensures
        cmd.direction == 1 ==> out_len_spec(cmd) == 0,
        cmd.direction != 1 ==> out_len_spec(cmd) as int == cmd.transfer_buffer_length as int,
{
}

/// The replies the forwarding loop writes when a client sends the bytes
/// `s` and then closes: step by step, [`UrbSession::next_action`] on the
/// next 8 bytes, then for a submit [`UrbSession::parse_submit`] on the
/// next 44, [`UrbSession::out_data_len`] bytes of data, and the reply of
/// [`UrbSession::complete`] for the outcome of the URB; `results` are the
/// outcomes of the URBs in the order they run. The loop ends where the
/// bytes run out.
pub open spec fn urb_loop_replies(s: Seq<u8>, results: Seq<Result<UrbCompletion, UsbIpError>>) -> Seq<u8>
    decreases s.len(),
{
    if s.len() < 8 {
        Seq::empty()
    } else {
        match header_action(s.take(8)) {
            UrbLoopAction::Finish => Seq::empty(),
            UrbLoopAction::Ignore(_) => urb_loop_replies(s.skip(8), results),
            UrbLoopAction::ReadSubmit => {
                let body = s.skip(8);
                if body.len() < 44 {
                    Seq::empty()
                } else {
                    let cmd = UsbIpCmdSubmit::spec_parse(body.take(44)).unwrap();
                    let n = out_len_spec(cmd) as int;
                    if body.len() < 44 + n || results.len() == 0 {
                        Seq::empty()
                    } else {
                        urb_reply_spec(cmd, results[0]) + urb_loop_replies(
                            body.skip(44 + n),
                            results.drop_first(),
                        )
                    }
                }
            },
        }
    }
}

/// One message of a client in the forwarding loop: a header, and for a
/// submit its command and its OUT data.
pub type UrbMessage = (UsbIpHeader, UsbIpCmdSubmit, Seq<u8>);

pub open spec fn is_submit(m: UrbMessage) -> bool {
    m.0.command == USBIP_CMD_SUBMIT
}

/// A submit carries exactly the data its command announces.
pub open spec fn message_ok(m: UrbMessage) -> bool {
    is_submit(m) ==> m.2.len() == out_len_spec(m.1) as int
}

/// The bytes of a message: the header, and for a submit the command and data.
pub open spec fn message_bytes(m: UrbMessage) -> Seq<u8> {
    if is_submit(m) {
        m.0.spec_bytes() + m.1.spec_bytes() + m.2
    } else {
        m.0.spec_bytes()
    }
}

/// The bytes of the messages one after the other.
pub open spec fn messages_bytes(ms: Seq<UrbMessage>) -> Seq<u8>
    decreases ms.len(),
{
    if ms.len() == 0 {
        Seq::empty()
    } else {
        message_bytes(ms[0]) + messages_bytes(ms.drop_first())
    }
}

/// Number of submits among the messages.
pub open spec fn submit_count(ms: Seq<UrbMessage>) -> nat
    decreases ms.len(),
{
    if ms.len() == 0 {
        0
    } else {
        (if is_submit(ms[0]) {
            1nat
        } else {
            0nat
        }) + submit_count(ms.drop_first())
    }
}

/// One reply per submit, in order: the i-th answers the i-th submit with
/// the i-th outcome.
pub open spec fn submit_replies(ms: Seq<UrbMessage>, results: Seq<Result<UrbCompletion, UsbIpError>>) -> Seq<u8>
    decreases ms.len(),
{
    if ms.len() == 0 {
        Seq::empty()
    } else if is_submit(ms[0]) {
        urb_reply_spec(ms[0].1, results[0]) + submit_replies(ms.drop_first(), results.drop_first())
    } else {
        submit_replies(ms.drop_first(), results)
    }
}

/// A client that sends well-formed messages and then closes gets exactly
/// one `USBIP_RET_SUBMIT` per submit, in order, each answering its submit
/// with that URB's outcome; other commands get no reply.
#[verifier::rlimit(40)]
pub proof fn law_urb_stream_replies(ms: Seq<UrbMessage>, results: Seq<Result<UrbCompletion, UsbIpError>>)
    requires
        forall|i: int| 0 <= i < ms.len() ==> message_ok(#[trigger] ms[i]),
        results.len() == submit_count(ms),
    ensures
        urb_loop_replies(messages_bytes(ms), results) == submit_replies(ms, results),
    decreases ms.len(),
{
    let s = messages_bytes(ms);
    if ms.len() == 0 {
        assert(s.len() == 0);
    } else {
        let m = ms[0];
        let rest = ms.drop_first();
        assert forall|i: int| 0 <= i < rest.len() implies message_ok(#[trigger] rest[i]) by {
            assert(rest[i] == ms[i + 1]);
        }
        let hb = m.0.spec_bytes();
        assert(hb.len() == 8);
        assert(s == message_bytes(m) + messages_bytes(rest));
        lemma_header_roundtrip(m.0, Seq::empty());
        assert(hb + Seq::<u8>::empty() =~= hb);
        if is_submit(m) {
            let cb = m.1.spec_bytes();
            assert(cb.len() == 44);
            assert(s.take(8) =~= hb);
            let body = s.skip(8);
            assert(body =~= cb + m.2 + messages_bytes(rest));
            assert(body.take(44) =~= cb);
            lemma_cmd_submit_roundtrip(m.1, Seq::empty());
            assert(cb + Seq::<u8>::empty() =~= cb);
            assert(body.skip(44 + m.2.len() as int) =~= messages_bytes(rest));
            law_urb_stream_replies(rest, results.drop_first());
        } else {
            assert(s.take(8) =~= hb);
            assert(s.skip(8) =~= messages_bytes(rest));
            law_urb_stream_replies(rest, results);
        }
    }
}

/// Every reply to a forwarded URB is a USBIP_RET_SUBMIT header (version
/// 1.1.1, status 0) followed by the command's own seqnum, devid,
/// direction, ep, start_frame, number_of_packets and setup packet, so the
/// client can match it to its URB. A successful transfer reports its
/// status and length, no error and then its IN data; a failed one a
/// negative errno status (the transfer error's, or EPROTO), length 0, one
/// error and no data.
pub proof fn law_urb_reply_answers_command(cmd: UsbIpCmdSubmit, result: Result<UrbCompletion, UsbIpError>)
    ensures
        urb_reply_spec(cmd, result).len() >= 52,
        urb_reply_spec(cmd, result).subrange(0, 8) == seq![0x01u8, 0x11, 0x00, 0x03, 0, 0, 0, 0],
        urb_reply_spec(cmd, result).subrange(8, 12) == be32(cmd.seqnum),
        urb_reply_spec(cmd, result).subrange(12, 16) == be32(cmd.devid),
        urb_reply_spec(cmd, result).subrange(16, 20) == be32(cmd.direction),
        urb_reply_spec(cmd, result).subrange(20, 24) == be32(cmd.ep),
        urb_reply_spec(cmd, result).subrange(32, 36) == be32(cmd.start_frame),
        urb_reply_spec(cmd, result).subrange(36, 40) == be32(cmd.number_of_packets),
        urb_reply_spec(cmd, result).subrange(44, 52) == cmd.setup@,
        result matches Ok(c) ==> {
            &&& urb_reply_spec(cmd, result).subrange(24, 28) == be32(c.status as u32)
            &&& urb_reply_spec(cmd, result).subrange(28, 32) == be32(c.actual_length)
            &&& urb_reply_spec(cmd, result).subrange(40, 44) == be32(0)
            &&& urb_reply_spec(cmd, result).skip(52) == c.data@
        },
        result matches Err(e) ==> {
            &&& urb_reply_spec(cmd, result).len() == 52
            &&& urb_reply_spec(cmd, result).subrange(24, 28) == be32(
                (match e {
                    UsbIpError::Usb(t) => urb_status_spec(t),
                    _ => -71i32,
                }) as u32,
            )
            &&& (match e {
                UsbIpError::Usb(t) => urb_status_spec(t),
                _ => -71i32,
            }) < 0
            &&& urb_reply_spec(cmd, result).subrange(28, 32) == be32(0)
            &&& urb_reply_spec(cmd, result).subrange(40, 44) == be32(1)
        },
{
    let h = UsbIpHeader { version: USBIP_VERSION, command: USBIP_RET_SUBMIT, status: 0 }.spec_bytes();
    assert(h =~= seq![0x01u8, 0x11, 0x00, 0x03, 0, 0, 0, 0]);
    let r = urb_reply_spec(cmd, result);
    let (ret, data) = match result {
        Ok(c) => (ret_submit_spec(cmd, c.status, c.actual_length, 0), c.data@),
        Err(e) => (ret_submit_spec(cmd, failure_status(e), 0, 1), Seq::<u8>::empty()),
    };
    law_ret_submit_layout(ret);
    let rb = ret.spec_bytes();
    assert(r =~= h + rb + data);
    assert(r.subrange(0, 8) =~= h);
    assert(r.subrange(8, 12) =~= rb.subrange(0, 4));
    assert(r.subrange(12, 16) =~= rb.subrange(4, 8));
    assert(r.subrange(16, 20) =~= rb.subrange(8, 12));
    assert(r.subrange(20, 24) =~= rb.subrange(12, 16));
    assert(r.subrange(24, 28) =~= rb.subrange(16, 20));
    assert(r.subrange(28, 32) =~= rb.subrange(20, 24));
    assert(r.subrange(32, 36) =~= rb.subrange(24, 28));
    assert(r.subrange(36, 40) =~= rb.subrange(28, 32));
    assert(r.subrange(40, 44) =~= rb.subrange(32, 36));
    assert(r.subrange(44, 52) =~= rb.subrange(36, 44));
    assert(r.skip(52) =~= data);
    if let Err(e) = result {
        if let UsbIpError::Usb(t) = e {
            law_urb_status_negative(t);
        }
    }
}

impl UrbSession {
    pub fn new() -> (s: Self)
        ensures
            s.seqnum == 0,
    {
        UrbSession { seqnum: 0 }
    }

    /// Decides on the next header (`None` when reading it failed).
    pub fn next_action(header: Option<&[u8]>) -> (r: UrbLoopAction)
        ensures
            match header {
                None => r == UrbLoopAction::Finish,
                Some(h) => r == header_action(h@),
            },
    {
        match header {
            None => UrbLoopAction::Finish,
            Some(h) => match UsbIpHeader::read_from_prefix(h) {
                None => UrbLoopAction::Finish,
                Some(p) => if p.command == USBIP_CMD_SUBMIT {
                    UrbLoopAction::ReadSubmit
                } else {
                    UrbLoopAction::Ignore(p.command)
                },
            },
        }
    }

    /// Parses the command bytes of a submit; `Protocol` error when they are too few.
    pub fn parse_submit(bytes: &[u8]) -> (r: Result<UsbIpCmdSubmit, UsbIpError>)
        ensures
            r is Ok <==> bytes@.len() >= UsbIpCmdSubmit::HEADER_SIZE,
            r matches Ok(c) ==> UsbIpCmdSubmit::spec_parse(bytes@) == Some(c),
            r matches Err(e) ==> e is Protocol,
    {
        match UsbIpCmdSubmit::read_from_prefix(bytes) {
            Some(c) => Ok(c),
            None => Err(UsbIpError::Protocol("invalid CMD_SUBMIT".to_owned())),
        }
    }

    /// How many data bytes follow the command on the wire: the buffer
    /// length for an OUT URB, none for an IN URB.
    pub fn out_data_len(cmd: &UsbIpCmdSubmit) -> (r: usize)
        ensures
            r == out_len_spec(*cmd),
    {
        if !cmd.is_in() && cmd.data_len() > 0 {
            cmd.data_len() as usize
        } else {
            0
        }
    }

    /// Builds the reply to a forwarded URB and counts it.
    pub fn complete(&mut self, cmd: &UsbIpCmdSubmit, result: Result<UrbCompletion, UsbIpError>) -> (r:
        Vec<u8>)
        ensures
            r@ == urb_reply_spec(*cmd, result),
            final(self).seqnum == old(self).seqnum.wrapping_add(1),
    {
        let mut reply: Vec<u8> = Vec::new();
        UsbIpHeader::new(USBIP_RET_SUBMIT).write_to(&mut reply);
        match result {
            Ok(c) => {
                let ret = UsbIpRetSubmit {
                    seqnum: cmd.seqnum,
                    devid: cmd.devid,
                    direction: cmd.direction,
                    ep: cmd.ep,
                    status: c.status as u32,
                    actual_length: c.actual_length,
                    start_frame: cmd.start_frame,
                    number_of_packets: cmd.number_of_packets,
                    error_count: 0,
                    setup: cmd.setup,
                };
                ret.write_to(&mut reply);
                push_all(&mut reply, c.data.as_slice());
            },
            Err(e) => {
                let status = match e {
                    UsbIpError::Usb(t) => urb_status(t),
                    _ => urb_status(TransferError::Other),
                };
                let ret = UsbIpRetSubmit {
                    seqnum: cmd.seqnum,
                    devid: cmd.devid,
                    direction: cmd.direction,
                    ep: cmd.ep,
                    status: status as u32,
                    actual_length: 0,
                    start_frame: cmd.start_frame,
                    number_of_packets: cmd.number_of_packets,
                    error_count: 1,
                    setup: cmd.setup,
                };
                ret.write_to(&mut reply);
            },
        }
        self.seqnum = self.seqnum.wrapping_add(1);
        reply
    }
}

} // verus!
