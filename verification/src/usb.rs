//! The server's USB device bookkeeping: export records built from what the
//! host reports of each device, bus id parsing and lookup, the descriptor
//! tree sent on import, the claimed-handle table and the transfer that a
//! submitted URB becomes.
use vstd::prelude::*;
use vstd::string::StringSliceAdditionalSpecFns;
use vstd::utf8::encode_utf8;
use crate::protocol::{UsbIpCmdSubmit, UsbIpDeviceEntry, UsbIpError, nul_terminated};
use crate::table::BusidTable;
use crate::wire::{
    decimal, find_byte, find_byte_exec, is_ascii_bytes, le16, le16_at, lemma_ascii_valid_utf8,
    lemma_decimal_ascii, lemma_decimal_digits, lemma_find_byte, lemma_find_byte_unique,
    lemma_parse_decimal_u8, parse_u8, parse_u8_spec, push_all, push_decimal, push_le16, push_str,
    law_le16_at_value, read_le16, string_from_utf8_lossy,
};

verus! {

// ─── What the host reports of a device ────────────────────────────

/// The first configuration of a device, as far as the export record needs it.
#[derive(Debug, Clone, Copy)]
pub struct ConfigSummary {
    pub num_interfaces: u8,
    pub number: u8,
}

/// What enumeration reports of one attached device.
#[derive(Debug, Clone, Copy)]
pub struct UsbDeviceInfo {
    pub bus_number: u8,
    pub address: u8,
    pub speed: u32,
    pub vendor_id: u16,
    pub product_id: u16,
    pub device_version: u16,
    pub class_code: u8,
    pub sub_class_code: u8,
    pub protocol_code: u8,
    pub num_configurations: u8,
    /// Configuration 0, when the host could read it.
    pub first_config: Option<ConfigSummary>,
}

/// Bus id text `"<bus>-<address>"`.
pub open spec fn busid_text(bus: u8, dev: u8) -> Seq<u8> {
    decimal(bus as nat) + seq![45u8] + decimal(dev as nat)
}

/// Directory under which the host lists its USB devices.
pub open spec fn devices_dir() -> Seq<u8> {
    "/sys/bus/usb/devices/".spec_bytes()
}

/// The sysfs path recorded for a device.
pub open spec fn device_path_text(bus: u8, dev: u8) -> Seq<u8> {
    devices_dir() + busid_text(bus, dev)
}

/// A fixed-size text field: at most `max` bytes of `text`, then zeros.
pub open spec fn padded(text: Seq<u8>, size: nat, max: int) -> Seq<u8> {
    Seq::new(size, |i: int| if i < text.len() && i < max { text[i] } else { 0u8 })
}

/// `e` is the export record of the device `info`.
pub open spec fn entry_describes(e: UsbIpDeviceEntry, info: UsbDeviceInfo) -> bool {
    &&& e.path@ == padded(device_path_text(info.bus_number, info.address), 256, 255)
    &&& e.busid@ == padded(busid_text(info.bus_number, info.address), 32, 31)
    &&& e.busnum == info.bus_number as u32
    &&& e.devnum == info.address as u32
    &&& e.speed == info.speed
    &&& e.id_vendor == info.vendor_id
    &&& e.id_product == info.product_id
    &&& e.bcd_device == info.device_version
    &&& e.b_device_class == info.class_code
    &&& e.b_device_sub_class == info.sub_class_code
    &&& e.b_device_protocol == info.protocol_code
    &&& e.b_num_configurations == info.num_configurations
    &&& match info.first_config {
        Some(c) => e.b_num_interfaces == c.num_interfaces && e.b_configuration_value == c.number,
        None => e.b_num_interfaces == 0 && e.b_configuration_value == 0,
    }
}

/// The devices whose descriptor could be read, in enumeration order.
pub open spec fn present(probed: Seq<Option<UsbDeviceInfo>>) -> Seq<UsbDeviceInfo>
    decreases probed.len(),
{
    if probed.len() == 0 {
        Seq::empty()
    } else {
        match probed.last() {
            Some(info) => present(probed.drop_last()).push(info),
            None => present(probed.drop_last()),
        }
    }
}

fn fill_path_field(text: &[u8]) -> (r: [u8; 256])
    ensures
        r@ == padded(text@, 256, 255),
{
    let mut field = [0u8; 256];
    let n = if text.len() < 255 {
        text.len()
    } else {
        255
    };
    let mut i: usize = 0;
    while i < n
        invariant
            n <= text@.len(),
            n <= 255,
            i <= n,
            field@.len() == 256,
            forall|j: int| 0 <= j < i ==> field@[j] == text@[j],
            forall|j: int| i <= j < 256 ==> field@[j] == 0u8,
        decreases n - i,
    {
        field[i] = text[i];
        i = i + 1;
    }
    assert(field@ =~= padded(text@, 256, 255));
    field
}

fn fill_busid_field(text: &[u8]) -> (r: [u8; 32])
    ensures
        r@ == padded(text@, 32, 31),
{
    let mut field = [0u8; 32];
    let n = if text.len() < 31 {
        text.len()
    } else {
        31
    };
    let mut i: usize = 0;
    while i < n
        invariant
            n <= text@.len(),
            n <= 31,
            i <= n,
            field@.len() == 32,
            forall|j: int| 0 <= j < i ==> field@[j] == text@[j],
            forall|j: int| i <= j < 32 ==> field@[j] == 0u8,
        decreases n - i,
    {
        field[i] = text[i];
        i = i + 1;
    }
    assert(field@ =~= padded(text@, 32, 31));
    field
}

/// Bus id text of a device.
pub fn format_busid(bus: u8, dev: u8) -> (r: Vec<u8>)
    ensures
        r@ == busid_text(bus, dev),
{
    let mut out: Vec<u8> = Vec::new();
    push_decimal(&mut out, bus as u32);
    out.push(45u8);
    push_decimal(&mut out, dev as u32);
    assert(out@ =~= busid_text(bus, dev));
    out
}

/// The export record of one enumerated device.
pub fn device_entry(info: &UsbDeviceInfo) -> (e: UsbIpDeviceEntry)
    ensures
        entry_describes(e, *info),
        e.busnum == info.bus_number as u32 && e.devnum == info.address as u32 && e.speed == info.speed,
        e.id_vendor == info.vendor_id && e.id_product == info.product_id && e.bcd_device == info.device_version,
        e.b_device_class == info.class_code && e.b_device_sub_class == info.sub_class_code
            && e.b_device_protocol == info.protocol_code,
        e.b_num_configurations == info.num_configurations,
{
    let busid = format_busid(info.bus_number, info.address);
    let mut path: Vec<u8> = Vec::new();
    push_str(&mut path, "/sys/bus/usb/devices/");
    push_all(&mut path, busid.as_slice());
    let (num_interfaces, config_value) = match info.first_config {
        Some(c) => (c.num_interfaces, c.number),
        None => (0u8, 0u8),
    };
    UsbIpDeviceEntry {
        path: fill_path_field(path.as_slice()),
        busid: fill_busid_field(busid.as_slice()),
        busnum: info.bus_number as u32,
        devnum: info.address as u32,
        speed: info.speed,
        id_vendor: info.vendor_id,
        id_product: info.product_id,
        bcd_device: info.device_version,
        b_device_class: info.class_code,
        b_device_sub_class: info.sub_class_code,
        b_device_protocol: info.protocol_code,
        b_configuration_value: config_value,
        b_num_configurations: info.num_configurations,
        b_num_interfaces: num_interfaces,
    }
}

// ─── Share policy ─────────────────────────────────────────────────

/// A device may be exported under the allowlist `allow` of vendor/product
/// pairs: every device when the list is empty, else those it names.
pub open spec fn id_allowed(vid: u16, pid: u16, allow: Seq<(u16, u16)>) -> bool {
    allow.len() == 0 || allow.contains((vid, pid))
}

/// The devices of `infos` that the allowlist lets out, in order.
pub open spec fn exportable(infos: Seq<UsbDeviceInfo>, allow: Seq<(u16, u16)>) -> Seq<UsbDeviceInfo>
    decreases infos.len(),
{
    if infos.len() == 0 {
        Seq::empty()
    } else if id_allowed(infos.last().vendor_id, infos.last().product_id, allow) {
        exportable(infos.drop_last(), allow).push(infos.last())
    } else {
        exportable(infos.drop_last(), allow)
    }
}

/// Whether the allowlist lets the device `vid:pid` out.
pub fn is_allowed(vid: u16, pid: u16, allow: &Vec<(u16, u16)>) -> (r: bool)
    ensures
        r == id_allowed(vid, pid, allow@),
{
    if allow.len() == 0 {
        return true;
    }
    let mut i: usize = 0;
    while i < allow.len()
        invariant
            i <= allow@.len(),
            forall|j: int| 0 <= j < i ==> allow@[j] != (vid, pid),
        decreases allow.len() - i,
    {
        let (v, p) = allow[i];
        if v == vid && p == pid {
            assert(allow@[i as int] == (vid, pid));
            return true;
        }
        i = i + 1;
    }
    false
}

proof fn lemma_push_contains<A>(s: Seq<A>, x: A, y: A)
    ensures
        s.push(x).contains(y) <==> (s.contains(y) || x == y),
{
    if s.contains(y) {
        let i = choose|i: int| 0 <= i < s.len() && s[i] == y;
        assert(s.push(x)[i] == y);
    }
    if x == y {
        assert(s.push(x)[s.len() as int] == y);
    }
    if s.push(x).contains(y) {
        let i = choose|i: int| 0 <= i < s.push(x).len() && s.push(x)[i] == y;
        if i < s.len() {
            assert(s[i] == y);
        }
    }
}

/// A device is exported exactly when it is among the devices and the
/// allowlist is empty or names its vendor and product.
pub proof fn law_allowlist_decides(infos: Seq<UsbDeviceInfo>, allow: Seq<(u16, u16)>, info: UsbDeviceInfo)
    ensures
        exportable(infos, allow).contains(info) <==> (infos.contains(info) && (allow.len() == 0
            || allow.contains((info.vendor_id, info.product_id)))),
    decreases infos.len(),
{
    if infos.len() == 0 {
    } else {
        let init = infos.drop_last();
        law_allowlist_decides(init, allow, info);
        assert(infos =~= init.push(infos.last()));
        lemma_push_contains(init, infos.last(), info);
        lemma_push_contains(exportable(init, allow), infos.last(), info);
    }
}

/// A device is listed exactly when enumeration could read it.
pub proof fn law_present_devices(probed: Seq<Option<UsbDeviceInfo>>, info: UsbDeviceInfo)
    ensures
        present(probed).contains(info) <==> probed.contains(Some(info)),
    decreases probed.len(),
{
    if probed.len() == 0 {
    } else {
        let init = probed.drop_last();
        law_present_devices(init, info);
        assert(probed =~= init.push(probed.last()));
        lemma_push_contains(init, probed.last(), Some(info));
        if let Some(last) = probed.last() {
            lemma_push_contains(present(init), last, info);
        }
    }
}

/// Only devices the allowlist names are ever exportable.
pub proof fn law_only_allowed_devices_exported(infos: Seq<UsbDeviceInfo>, allow: Seq<(u16, u16)>, k: int)
    requires
        0 <= k < exportable(infos, allow).len(),
    ensures
        id_allowed(exportable(infos, allow)[k].vendor_id, exportable(infos, allow)[k].product_id, allow),
        infos.contains(exportable(infos, allow)[k]),
    decreases infos.len(),
{
    if infos.len() > 0 {
        let rest = exportable(infos.drop_last(), allow);
        if k < rest.len() {
            law_only_allowed_devices_exported(infos.drop_last(), allow, k);
            let i = choose|i: int| 0 <= i < infos.drop_last().len() && infos.drop_last()[i] == rest[k];
            assert(infos[i] == rest[k]);
        } else {
            assert(infos[infos.len() - 1] == infos.last());
        }
    }
}

// ─── Bus ids ──────────────────────────────────────────────────────

/// What `"<bus>-<dev>"` text names: the text before the first `-` and the
/// text between it and the next `-` (or the end), each read as a `u8`.
pub open spec fn parse_busid_spec(s: Seq<u8>) -> Option<(u8, u8)> {
    let i = find_byte(s, 45u8);
    if i >= s.len() {
        None
    } else {
        let rest = s.skip(i + 1);
        let p0 = s.take(i);
        let p1 = rest.take(find_byte(rest, 45u8));
        match (parse_u8_spec(p0), parse_u8_spec(p1)) {
            (Some(b), Some(d)) => Some((b, d)),
            _ => None,
        }
    }
}

/// Parses a bus id (`"busnum-devnum"`) into its numbers.
pub fn parse_busid(busid: &str) -> (r: Result<(u8, u8), UsbIpError>)
    ensures
        r is Ok <==> parse_busid_spec(busid.spec_bytes()) is Some,
        r matches Ok(p) ==> parse_busid_spec(busid.spec_bytes()) == Some(p),
        r matches Err(e) ==> (e matches UsbIpError::DeviceNotFound(m) && m@ == busid@),
{
    let s = busid.as_bytes();
    let i = find_byte_exec(s, 45u8);
    proof {
        lemma_find_byte(s@, 45u8);
    }
    if i >= s.len() {
        return Err(UsbIpError::DeviceNotFound(busid.to_owned()));
    }
    let p0 = &s[0..i];
    let rest = &s[i + 1..s.len()];
    let j = find_byte_exec(rest, 45u8);
    proof {
        lemma_find_byte(rest@, 45u8);
    }
    let p1 = &rest[0..j];
    assert(p0@ =~= s@.take(i as int));
    assert(rest@ =~= s@.skip(i + 1));
    assert(p1@ =~= rest@.take(j as int));
    let busnum = match parse_u8(p0) {
        Some(b) => b,
        None => {
            return Err(UsbIpError::DeviceNotFound(busid.to_owned()));
        },
    };
    let devnum = match parse_u8(p1) {
        Some(d) => d,
        None => {
            return Err(UsbIpError::DeviceNotFound(busid.to_owned()));
        },
    };
    Ok((busnum, devnum))
}

/// The bus id text of a device names that device.
pub proof fn lemma_busid_text_parses(bus: u8, dev: u8)
    ensures
        parse_busid_spec(busid_text(bus, dev)) == Some((bus, dev)),
{
    let s = busid_text(bus, dev);
    let db = decimal(bus as nat);
    let dd = decimal(dev as nat);
    lemma_decimal_digits(bus as nat);
    lemma_decimal_digits(dev as nat);
    assert forall|j: int| 0 <= j < db.len() implies s[j] != 45u8 by {
        assert(s[j] == db[j]);
        assert(crate::wire::is_digit(db[j]));
    }
    assert(s[db.len() as int] == 45u8);
    lemma_find_byte_unique(s, 45u8, db.len() as int);
    let rest = s.skip(db.len() as int + 1);
    assert(rest =~= dd);
    assert forall|j: int| 0 <= j < dd.len() implies dd[j] != 45u8 by {
        assert(crate::wire::is_digit(dd[j]));
    }
    lemma_find_byte_unique(dd, 45u8, dd.len() as int);
    assert(s.take(db.len() as int) =~= db);
    assert(dd.take(dd.len() as int) =~= dd);
    lemma_parse_decimal_u8(bus);
    lemma_parse_decimal_u8(dev);
}

proof fn lemma_decimal_u8_short(x: u8)
    ensures
        decimal(x as nat).len() <= 3,
{
    let n = x as nat;
    if n >= 10 {
        let n1 = n / 10;
        assert(decimal(n).len() == decimal(n1).len() + 1);
        if n1 >= 10 {
            let n2 = n1 / 10;
            assert(n2 < 10);
            assert(decimal(n1).len() == decimal(n2).len() + 1);
            assert(decimal(n2).len() == 1);
        } else {
            assert(decimal(n1).len() == 1);
        }
    }
}

/// The record of an enumerated device carries the bus id that names the device.
pub proof fn lemma_listed_busid_names_device(e: UsbIpDeviceEntry, info: UsbDeviceInfo)
    requires
        entry_describes(e, info),
    ensures
        e.spec_busid() == busid_text(info.bus_number, info.address),
        parse_busid_spec(e.spec_busid()) == Some((info.bus_number, info.address)),
        is_ascii_bytes(e.spec_busid()),
{
    let t = busid_text(info.bus_number, info.address);
    let db = decimal(info.bus_number as nat);
    let dd = decimal(info.address as nat);
    lemma_decimal_u8_short(info.bus_number);
    lemma_decimal_u8_short(info.address);
    lemma_decimal_digits(info.bus_number as nat);
    lemma_decimal_digits(info.address as nat);
    assert(t.len() <= 7);
    assert forall|j: int| 0 <= j < t.len() implies t[j] != 0u8 && t[j] < 128 by {
        if j < db.len() {
            assert(t[j] == db[j]);
            assert(crate::wire::is_digit(db[j]));
        } else if j > db.len() {
            assert(t[j] == dd[j - db.len() - 1]);
            assert(crate::wire::is_digit(dd[j - db.len() - 1]));
        }
    }
    assert forall|j: int| 0 <= j < t.len() implies e.busid@[j] != 0u8 by {
        assert(e.busid@[j] == t[j]);
    }
    assert(e.busid@[t.len() as int] == 0u8);
    lemma_find_byte_unique(e.busid@, 0u8, t.len() as int);
    assert(nul_terminated(e.busid@) =~= t);
    lemma_busid_text_parses(info.bus_number, info.address);
}

// ─── Descriptors ──────────────────────────────────────────────────

/// A standard device descriptor.
#[derive(Debug, Clone, Copy)]
pub struct DeviceDescriptor {
    pub length: u8,
    pub descriptor_type: u8,
    pub usb_version: u16,
    pub class_code: u8,
    pub sub_class_code: u8,
    pub protocol_code: u8,
    pub max_packet_size_0: u8,
    pub vendor_id: u16,
    pub product_id: u16,
    pub device_version: u16,
    pub manufacturer_string_index: u8,
    pub product_string_index: u8,
    pub serial_number_string_index: u8,
    pub num_configurations: u8,
}

pub open spec fn device_descriptor_bytes(d: DeviceDescriptor) -> Seq<u8> {
    seq![d.length, d.descriptor_type] + le16(d.usb_version) + seq![
        d.class_code,
        d.sub_class_code,
        d.protocol_code,
        d.max_packet_size_0,
    ] + le16(d.vendor_id) + le16(d.product_id) + le16(d.device_version) + seq![
        d.manufacturer_string_index,
        d.product_string_index,
        d.serial_number_string_index,
        d.num_configurations,
    ]
}

/// Descriptor type of a configuration descriptor.
pub const CONFIG_DESCRIPTOR_TYPE: u8 = 2;

/// Length of a configuration descriptor alone.
pub const CONFIG_DESCRIPTOR_SIZE: usize = 9;

/// The sets one after the other.
pub open spec fn concat_sets(cs: Seq<Seq<u8>>) -> Seq<u8>
    decreases cs.len(),
{
    if cs.len() == 0 {
        Seq::empty()
    } else {
        concat_sets(cs.drop_last()) + cs.last()
    }
}

/// The descriptor tree sent with an import reply: the device descriptor,
/// then each configuration descriptor set byte for byte, in order.
pub open spec fn descriptor_tree_spec(d: DeviceDescriptor, configs: Seq<Seq<u8>>) -> Seq<u8> {
    device_descriptor_bytes(d) + concat_sets(configs)
}

/// The views of a list of byte vectors.
pub open spec fn sets_view(cs: Seq<Vec<u8>>) -> Seq<Seq<u8>> {
    cs.map_values(|v: Vec<u8>| v@)
}

/// The 18 bytes of a device descriptor (multi-byte fields little-endian).
pub fn desc_to_bytes(desc: &DeviceDescriptor) -> (r: Vec<u8>)
    ensures
        r@ == device_descriptor_bytes(*desc),
        r@.len() == 18,
{
    let mut out: Vec<u8> = Vec::new();
    out.push(desc.length);
    out.push(desc.descriptor_type);
    push_le16(&mut out, desc.usb_version);
    out.push(desc.class_code);
    out.push(desc.sub_class_code);
    out.push(desc.protocol_code);
    out.push(desc.max_packet_size_0);
    push_le16(&mut out, desc.vendor_id);
    push_le16(&mut out, desc.product_id);
    push_le16(&mut out, desc.device_version);
    out.push(desc.manufacturer_string_index);
    out.push(desc.product_string_index);
    out.push(desc.serial_number_string_index);
    out.push(desc.num_configurations);
    assert(out@ =~= device_descriptor_bytes(*desc));
    out
}

/// The sets are joined in order: joining two lists of sets is joining
/// the first, then the second, and a single set is itself.
pub proof fn law_concat_sets_in_order(a: Seq<Seq<u8>>, b: Seq<Seq<u8>>)
    ensures
        concat_sets(a + b) == concat_sets(a) + concat_sets(b),
        b.len() == 1 ==> concat_sets(b) == b[0],
    decreases b.len(),
{
    if b.len() == 0 {
        assert(a + b =~= a);
        assert(concat_sets(a) + concat_sets(b) =~= concat_sets(a));
    } else {
        law_concat_sets_in_order(a, b.drop_last());
        assert((a + b).drop_last() =~= a + b.drop_last());
        assert((a + b).last() == b.last());
        assert(concat_sets(a + b) =~= concat_sets(a) + concat_sets(b));
        if b.len() == 1 {
            assert(b.drop_last().len() == 0);
            assert(concat_sets(b) =~= b[0]);
        }
    }
}

/// The 18-byte device descriptor: bLength, bDescriptorType, bcdUSB
/// (little-endian, 2..4), class, subclass, protocol, bMaxPacketSize0,
/// idVendor (8..10), idProduct (10..12), bcdDevice (12..14), the three
/// string indexes and bNumConfigurations.
pub proof fn law_device_descriptor_layout(d: DeviceDescriptor)
    ensures
        device_descriptor_bytes(d).len() == 18,
        device_descriptor_bytes(d)[0] == d.length,
        device_descriptor_bytes(d)[1] == d.descriptor_type,
        device_descriptor_bytes(d).subrange(2, 4) == le16(d.usb_version),
        device_descriptor_bytes(d)[4] == d.class_code,
        device_descriptor_bytes(d)[5] == d.sub_class_code,
        device_descriptor_bytes(d)[6] == d.protocol_code,
        device_descriptor_bytes(d)[7] == d.max_packet_size_0,
        device_descriptor_bytes(d).subrange(8, 10) == le16(d.vendor_id),
        device_descriptor_bytes(d).subrange(10, 12) == le16(d.product_id),
        device_descriptor_bytes(d).subrange(12, 14) == le16(d.device_version),
        device_descriptor_bytes(d)[14] == d.manufacturer_string_index,
        device_descriptor_bytes(d)[15] == d.product_string_index,
        device_descriptor_bytes(d)[16] == d.serial_number_string_index,
        device_descriptor_bytes(d)[17] == d.num_configurations,
{
    let b = device_descriptor_bytes(d);
    assert(b.subrange(2, 4) =~= le16(d.usb_version));
    assert(b.subrange(8, 10) =~= le16(d.vendor_id));
    assert(b.subrange(10, 12) =~= le16(d.product_id));
    assert(b.subrange(12, 14) =~= le16(d.device_version));
}

/// The BCD value (`0xJJMN`) of version `major.minor.sub_minor`, with the
/// major number in two decimal digits (taken modulo 16 bits).
pub fn bcd_version(major: u8, minor: u8, sub_minor: u8) -> (r: u16)
    ensures
        r as int == ((major as int / 10) * 0x1000 + (major as int % 10) * 0x100 + (minor as int % 16)
            * 0x10 + sub_minor as int % 16) % 0x10000,
{
    let v: u32 = (major as u32 / 10) * 0x1000 + (major as u32 % 10) * 0x100 + (minor as u32 % 16)
        * 0x10 + sub_minor as u32 % 16;
    (v % 0x10000) as u16
}

/// The GET_DESCRIPTOR request that reads `length` bytes of configuration
/// `index`: its first 9 bytes give the length of the whole set.
pub fn config_descriptor_read(index: u8, length: u16) -> (r: TransferPlan)
    ensures
        r == (TransferPlan::ControlIn {
            request_type: 0x80,
            request: 6,
            value: (0x200 + index) as u16,
            index: 0,
            length,
        }),
{
    TransferPlan::ControlIn { request_type: 0x80, request: 6, value: 0x200u16 + index as u16, index: 0, length }
}

/// The `wTotalLength` of a configuration descriptor that starts `header`;
/// `None` when `header` is shorter than a configuration descriptor or is
/// not one.
pub fn config_total_length(header: &[u8]) -> (r: Option<u16>)
    ensures
        r == if header@.len() >= 9 && header@[1] == CONFIG_DESCRIPTOR_TYPE {
            Some(le16_at(header@, 2))
        } else {
            None
        },
{
    if header.len() >= CONFIG_DESCRIPTOR_SIZE && header[1] == CONFIG_DESCRIPTOR_TYPE {
        Some(read_le16(header, 2))
    } else {
        None
    }
}

/// The descriptor tree of a device: its device descriptor, then each of
/// its configuration descriptor sets as the device reported it.
pub fn descriptor_tree(desc: &DeviceDescriptor, configs: &Vec<Vec<u8>>) -> (r: Vec<u8>)
    ensures
        r@ == descriptor_tree_spec(*desc, sets_view(configs@)),
{
    let mut out = desc_to_bytes(desc);
    let ghost cs = sets_view(configs@);
    let mut i: usize = 0;
    while i < configs.len()
        invariant
            i <= configs@.len(),
            cs == sets_view(configs@),
            out@ == device_descriptor_bytes(*desc) + concat_sets(cs.take(i as int)),
        decreases configs.len() - i,
    {
        let set = &configs[i];
        assert(cs[i as int] == set@);
        push_all(&mut out, set.as_slice());
        proof {
            assert(cs.take(i + 1).drop_last() =~= cs.take(i as int));
            assert(cs.take(i + 1).last() == set@);
            assert(out@ =~= device_descriptor_bytes(*desc) + concat_sets(cs.take(i + 1)));
        }
        i = i + 1;
    }
    assert(cs.take(i as int) =~= cs);
    out
}

// ─── Interfaces to claim and release ──────────────────────────────

/// For each interface index below `n`, the number of its first alternate setting, if any.
pub open spec fn claim_list(n: nat, ifaces: Seq<Vec<u8>>) -> Seq<u8>
    decreases n,
{
    if n == 0 {
        Seq::empty()
    } else {
        let k = n - 1;
        claim_list(k as nat, ifaces) + if k < ifaces.len() && ifaces[k]@.len() > 0 {
            seq![ifaces[k]@[0]]
        } else {
            Seq::empty()
        }
    }
}

/// Interface numbers to claim: for each of the first `num_interfaces`
/// interfaces, the number in its first alternate setting.
/// `interfaces[i]` lists the interface numbers of interface `i`'s settings.
pub fn interfaces_to_claim(num_interfaces: u8, interfaces: &Vec<Vec<u8>>) -> (r: Vec<u8>)
    ensures
        r@ == claim_list(num_interfaces as nat, interfaces@),
{
    let mut out: Vec<u8> = Vec::new();
    let mut k: u8 = 0;
    while k < num_interfaces
        invariant
            k <= num_interfaces,
            out@ == claim_list(k as nat, interfaces@),
        decreases num_interfaces - k,
    {
        let idx = k as usize;
        if idx < interfaces.len() && interfaces[idx].len() > 0 {
            out.push(interfaces[idx][0]);
        }
        proof {
            assert(out@ =~= claim_list((k + 1) as nat, interfaces@));
        }
        k = k + 1;
    }
    out
}

/// Every interface number of every setting, in order.
pub open spec fn release_list(ifaces: Seq<Vec<u8>>) -> Seq<u8>
    decreases ifaces.len(),
{
    if ifaces.len() == 0 {
        Seq::empty()
    } else {
        release_list(ifaces.drop_last()) + ifaces.last()@
    }
}

/// When each of the first `n` interfaces has a setting, the `k`-th
/// interface claimed is the number of the `k`-th interface's first setting,
/// for each `k < n`, and nothing else is claimed.
pub proof fn law_claim_first_settings(n: nat, ifaces: Seq<Vec<u8>>)
    requires
        n <= ifaces.len(),
        forall|k: int| 0 <= k < n ==> (#[trigger] ifaces[k])@.len() > 0,
    ensures
        claim_list(n, ifaces).len() == n,
        forall|k: int| 0 <= k < n ==> #[trigger] claim_list(n, ifaces)[k] == ifaces[k]@[0],
    decreases n,
{
    if n > 0 {
        law_claim_first_settings((n - 1) as nat, ifaces);
        let prev = claim_list((n - 1) as nat, ifaces);
        assert(claim_list(n, ifaces) == prev + seq![ifaces[n - 1]@[0]]);
        assert forall|k: int| 0 <= k < n implies #[trigger] claim_list(n, ifaces)[k] == ifaces[k]@[0] by {
            if k < n - 1 {
                assert(claim_list(n, ifaces)[k] == prev[k]);
            }
        }
    }
}

/// Every setting's interface number of every interface is released.
pub proof fn law_release_every_setting(ifaces: Seq<Vec<u8>>, i: int, j: int)
    requires
        0 <= i < ifaces.len(),
        0 <= j < ifaces[i]@.len(),
    ensures
        release_list(ifaces).contains(ifaces[i]@[j]),
    decreases ifaces.len(),
{
    let init = ifaces.drop_last();
    let last = ifaces.last()@;
    assert(release_list(ifaces) == release_list(init) + last);
    if i < init.len() {
        assert(init[i] == ifaces[i]);
        law_release_every_setting(init, i, j);
        let p = choose|p: int| 0 <= p < release_list(init).len() && release_list(init)[p] == ifaces[i]@[j];
        assert(release_list(ifaces)[p] == ifaces[i]@[j]);
    } else {
        assert(release_list(ifaces)[release_list(init).len() + j] == last[j]);
    }
}

/// Interface numbers to release: those of every setting of every interface.
pub fn interfaces_to_release(interfaces: &Vec<Vec<u8>>) -> (r: Vec<u8>)
    ensures
        r@ == release_list(interfaces@),
{
    let mut out: Vec<u8> = Vec::new();
    let mut i: usize = 0;
    while i < interfaces.len()
        invariant
            i <= interfaces@.len(),
            out@ == release_list(interfaces@.take(i as int)),
        decreases interfaces.len() - i,
    {
        push_all(&mut out, interfaces[i].as_slice());
        proof {
            assert(interfaces@.take(i + 1).drop_last() =~= interfaces@.take(i as int));
        }
        i = i + 1;
    }
    assert(interfaces@.take(i as int) =~= interfaces@);
    out
}

// ─── Transfers ────────────────────────────────────────────────────

/// Smallest buffer offered to a bulk or interrupt IN transfer.
pub const MIN_IN_BUFFER: u32 = 512;

/// Timeout of one transfer, in milliseconds.
pub const TRANSFER_TIMEOUT_MS: u64 = 5000;

/// The USB transfer that a submitted URB becomes.
#[derive(Debug, Clone, Copy, PartialEq, Eq, Structural)]
pub enum TransferPlan {
    ControlIn { request_type: u8, request: u8, value: u16, index: u16, length: u16 },
    ControlOut { request_type: u8, request: u8, value: u16, index: u16 },
    BulkIn { endpoint: u8, buffer_len: u32 },
    BulkOut { endpoint: u8 },
}

pub open spec fn plan_spec(cmd: UsbIpCmdSubmit) -> TransferPlan {
    let s = cmd.setup@;
    if cmd.spec_is_control() {
        if cmd.spec_is_in() {
            TransferPlan::ControlIn {
                request_type: s[0],
                request: s[1],
                value: le16_at(s, 2),
                index: le16_at(s, 4),
                length: le16_at(s, 6),
            }
        } else {
            TransferPlan::ControlOut {
                request_type: s[0],
                request: s[1],
                value: le16_at(s, 2),
                index: le16_at(s, 4),
            }
        }
    } else if cmd.spec_is_in() {
        TransferPlan::BulkIn {
            endpoint: cmd.ep as u8,
            buffer_len: if cmd.transfer_buffer_length > MIN_IN_BUFFER {
                cmd.transfer_buffer_length
            } else {
                MIN_IN_BUFFER
            },
        }
    } else {
        TransferPlan::BulkOut { endpoint: cmd.ep as u8 }
    }
}

/// The value of the little-endian 16-bit field at setup bytes `i` and `i + 1`.
pub open spec fn setup_word(setup: Seq<u8>, i: int) -> int {
    setup[i] as int + 256 * setup[i + 1] as int
}

/// `plan` is the transfer the URB `cmd` asks for: on endpoint 0 a control
/// transfer whose request type, request, value, index and (for IN) read
/// length are the setup packet's fields; elsewhere a bulk transfer on the
/// URB's endpoint, reading at least the URB's buffer length and at least
/// 512 bytes, the larger of the two, for IN.
pub open spec fn plan_reads_setup(cmd: UsbIpCmdSubmit, plan: TransferPlan) -> bool {
    let s = cmd.setup@;
    if cmd.ep == 0 {
        if cmd.direction == 1 {
            plan matches TransferPlan::ControlIn { request_type, request, value, index, length }
                && request_type == s[0] && request == s[1] && value as int == setup_word(s, 2)
                && index as int == setup_word(s, 4) && length as int == setup_word(s, 6)
        } else {
            plan matches TransferPlan::ControlOut { request_type, request, value, index }
                && request_type == s[0] && request == s[1] && value as int == setup_word(s, 2)
                && index as int == setup_word(s, 4)
        }
    } else if cmd.direction == 1 {
        plan matches TransferPlan::BulkIn { endpoint, buffer_len } && endpoint as int == cmd.ep as int
            % 256 && buffer_len >= cmd.transfer_buffer_length && buffer_len >= 512 && (buffer_len
            == cmd.transfer_buffer_length || buffer_len == 512)
    } else {
        plan matches TransferPlan::BulkOut { endpoint } && endpoint as int == cmd.ep as int % 256
    }
}

/// The planned transfer decodes the URB: the setup packet's fields for a
/// control transfer (the read length is setup bytes 6 and 7,
/// little-endian), the endpoint and buffer for a bulk one.
pub proof fn law_plan_follows_command(cmd: UsbIpCmdSubmit)
    ensures
        plan_reads_setup(cmd, plan_spec(cmd)),
{
    let s = cmd.setup@;
    assert(s.len() == 8);
    law_le16_at_value(s, 2);
    law_le16_at_value(s, 4);
    law_le16_at_value(s, 6);
    let ep = cmd.ep;
    assert((ep as u8) as int == ep as int % 256) by (bit_vector);
}

/// The export record of a device carries each of the device's own
/// descriptor fields in the record field of the same meaning, and its bus
/// and address as numbers.
pub proof fn law_export_record_fields(e: UsbIpDeviceEntry, info: UsbDeviceInfo)
    requires
        entry_describes(e, info),
    ensures
        e.busnum == info.bus_number as u32,
        e.devnum == info.address as u32,
        e.speed == info.speed,
        e.id_vendor == info.vendor_id,
        e.id_product == info.product_id,
        e.bcd_device == info.device_version,
        e.b_device_class == info.class_code,
        e.b_device_sub_class == info.sub_class_code,
        e.b_device_protocol == info.protocol_code,
        e.b_num_configurations == info.num_configurations,
{
}

/// Chooses the transfer for a URB: a control transfer on endpoint 0 (setup
/// packet decoded), otherwise bulk/interrupt on the URB's endpoint; IN
/// transfers get a buffer of the requested length (control) or of at least
/// 512 bytes (bulk).
pub fn plan_transfer(cmd: &UsbIpCmdSubmit) -> (r: TransferPlan)
    ensures
        r == plan_spec(*cmd),
        plan_reads_setup(*cmd, r),
{
    proof {
        law_plan_follows_command(*cmd);
    }
    let setup = vstd::array::array_as_slice(&cmd.setup);
    if cmd.is_control() {
        let request_type = setup[0];
        let request = setup[1];
        let value = read_le16(setup, 2);
        let index = read_le16(setup, 4);
        if cmd.is_in() {
            let length = read_le16(setup, 6);
            TransferPlan::ControlIn { request_type, request, value, index, length }
        } else {
            TransferPlan::ControlOut { request_type, request, value, index }
        }
    } else if cmd.is_in() {
        let len = cmd.data_len();
        let buffer_len = if len > MIN_IN_BUFFER {
            len
        } else {
            MIN_IN_BUFFER
        };
        TransferPlan::BulkIn { endpoint: cmd.ep_num() as u8, buffer_len }
    } else {
        TransferPlan::BulkOut { endpoint: cmd.ep_num() as u8 }
    }
}

impl TransferPlan {
    pub open spec fn spec_is_in(self) -> bool {
        self is ControlIn || self is BulkIn
    }

    /// Size of the buffer an IN transfer reads into (0 for OUT transfers).
    pub fn in_buffer_len(&self) -> (r: usize)
        ensures
            r == match *self {
                TransferPlan::ControlIn { length, .. } => length as usize,
                TransferPlan::BulkIn { buffer_len, .. } => buffer_len as usize,
                _ => 0usize,
            },
    {
        match *self {
            TransferPlan::ControlIn { length, .. } => length as usize,
            TransferPlan::BulkIn { buffer_len, .. } => buffer_len as usize,
            _ => 0,
        }
    }
}

/// The outcome of a transfer as it goes back to the client.
pub struct UrbCompletion {
    pub status: i32,
    pub actual_length: u32,
    pub data: Vec<u8>,
}

/// A finished transfer: status 0, the count of bytes moved, and for IN
/// transfers the bytes read (the buffer cut to that count).
pub fn complete_transfer(plan: &TransferPlan, transferred: usize, buffer: Vec<u8>) -> (r:
    UrbCompletion)
    requires
        transferred <= u32::MAX,
        plan.spec_is_in() ==> transferred <= buffer@.len(),
    ensures
        r.status == 0,
        r.actual_length == transferred,
        plan.spec_is_in() ==> r.data@ == buffer@.take(transferred as int),
        !plan.spec_is_in() ==> r.data@.len() == 0,
{
    match plan {
        TransferPlan::ControlIn { .. } | TransferPlan::BulkIn { .. } => {
            let mut data = buffer;
            data.truncate(transferred);
            UrbCompletion { status: 0, actual_length: transferred as u32, data }
        },
        _ => UrbCompletion { status: 0, actual_length: transferred as u32, data: Vec::new() },
    }
}

// ─── The device manager ───────────────────────────────────────────

/// `k` is the first index of `addrs` (bus and address of each device on the
/// host, in enumeration order) that holds `(busnum, devnum)`.
pub open spec fn first_at(addrs: Seq<(u8, u8)>, busnum: u8, devnum: u8, k: int) -> bool {
    &&& 0 <= k < addrs.len()
    &&& addrs[k] == (busnum, devnum)
    &&& forall|j: int| 0 <= j < k ==> addrs[j] != (busnum, devnum)
}

/// Devices claimed for export, keyed by bus id; `H` is the open device handle.
pub struct UsbDeviceManager<H> {
    handles: BusidTable<H>,
}

impl<H> UsbDeviceManager<H> {
    /// The claimed devices: bus id text to handle.
    pub closed spec fn view(&self) -> Map<Seq<u8>, H> {
        self.handles.view()
    }

    pub closed spec fn wf(&self) -> bool {
        self.handles.wf()
    }

    pub fn new() -> (m: Self)
        ensures
            m.wf(),
            m.view() == Map::<Seq<u8>, H>::empty(),
    {
        UsbDeviceManager { handles: BusidTable::new() }
    }

    /// Export records of the devices whose descriptor the host could read
    /// (`None` marks one it could not), in enumeration order.
    pub fn list_devices(&self, probed: &Vec<Option<UsbDeviceInfo>>) -> (r: Vec<UsbIpDeviceEntry>)
        ensures
            r@.len() == present(probed@).len(),
            forall|k: int|
                0 <= k < r@.len() ==> entry_describes(#[trigger] r@[k], present(probed@)[k]),
    {
        let mut out: Vec<UsbIpDeviceEntry> = Vec::new();
        let mut i: usize = 0;
        while i < probed.len()
            invariant
                i <= probed@.len(),
                out@.len() == present(probed@.take(i as int)).len(),
                forall|k: int|
                    0 <= k < out@.len() ==> entry_describes(
                        #[trigger] out@[k],
                        present(probed@.take(i as int))[k],
                    ),
            decreases probed.len() - i,
        {
            proof {
                assert(probed@.take(i + 1).drop_last() =~= probed@.take(i as int));
            }
            match &probed[i] {
                Some(info) => {
                    out.push(device_entry(info));
                },
                None => {},
            }
            i = i + 1;
        }
        assert(probed@.take(i as int) =~= probed@);
        out
    }

    /// Export records of the devices the allowlist lets out (all of them
    /// when it is empty), in enumeration order.
    pub fn list_exportable_devices(&self, probed: &Vec<Option<UsbDeviceInfo>>, allow: &Vec<(u16, u16)>) -> (r:
        Vec<UsbIpDeviceEntry>)
        ensures
            r@.len() == exportable(present(probed@), allow@).len(),
            forall|k: int|
                0 <= k < r@.len() ==> entry_describes(
                    #[trigger] r@[k],
                    exportable(present(probed@), allow@)[k],
                ),
    {
        let all = self.list_devices(probed);
        let ghost infos = present(probed@);
        let mut out: Vec<UsbIpDeviceEntry> = Vec::new();
        let mut i: usize = 0;
        while i < all.len()
            invariant
                i <= all@.len(),
                all@.len() == infos.len(),
                forall|j: int| 0 <= j < all@.len() ==> entry_describes(#[trigger] all@[j], infos[j]),
                out@.len() == exportable(infos.take(i as int), allow@).len(),
                forall|k: int|
                    0 <= k < out@.len() ==> entry_describes(
                        #[trigger] out@[k],
                        exportable(infos.take(i as int), allow@)[k],
                    ),
            decreases all.len() - i,
        {
            let e = all[i];
            proof {
                assert(infos.take(i + 1).drop_last() =~= infos.take(i as int));
                assert(entry_describes(all@[i as int], infos[i as int]));
            }
            if is_allowed(e.id_vendor, e.id_product, allow) {
                out.push(e);
            }
            i = i + 1;
        }
        assert(infos.take(i as int) =~= infos);
        out
    }

    /// The record of the device the bus id names, when the allowlist lets
    /// it out; `None` otherwise.
    pub fn get_exportable_entry(&self, probed: &Vec<Option<UsbDeviceInfo>>, busid: &str, allow: &Vec<(u16, u16)>) -> (r:
        Option<UsbIpDeviceEntry>)
        ensures
            match parse_busid_spec(busid.spec_bytes()) {
                None => r is None,
                Some((b, d)) => {
                    let infos = present(probed@);
                    &&& r is None <==> forall|k: int|
                        0 <= k < infos.len() ==> !(#[trigger] infos[k].bus_number == b
                            && infos[k].address == d && id_allowed(
                            infos[k].vendor_id,
                            infos[k].product_id,
                            allow@,
                        ) && forall|j: int|
                            0 <= j < k ==> !(#[trigger] infos[j].bus_number == b
                                && infos[j].address == d))
                    &&& r matches Some(e) ==> exists|k: int|
                        0 <= k < infos.len() && #[trigger] infos[k].bus_number == b
                            && infos[k].address == d && entry_describes(e, infos[k]) && id_allowed(
                            e.id_vendor,
                            e.id_product,
                            allow@,
                        ) && forall|j: int|
                            0 <= j < k ==> !(#[trigger] infos[j].bus_number == b
                                && infos[j].address == d)
                },
            },
    {
        match self.get_device_entry(probed, busid) {
            Some(e) => if is_allowed(e.id_vendor, e.id_product, allow) {
                Some(e)
            } else {
                None
            },
            None => None,
        }
    }

    /// The record of the device the bus id names: the first listed device
    /// with that bus and address; `None` when the bus id does not parse or
    /// no such device is listed.
    pub fn get_device_entry(&self, probed: &Vec<Option<UsbDeviceInfo>>, busid: &str) -> (r: Option<
        UsbIpDeviceEntry,
    >)
        ensures
            match parse_busid_spec(busid.spec_bytes()) {
                None => r is None,
                Some((b, d)) => {
                    let infos = present(probed@);
                    &&& r is None <==> forall|k: int|
                        0 <= k < infos.len() ==> !(#[trigger] infos[k].bus_number == b
                            && infos[k].address == d)
                    &&& r matches Some(e) ==> exists|k: int|
                        0 <= k < infos.len() && #[trigger] infos[k].bus_number == b
                            && infos[k].address == d && entry_describes(e, infos[k]) && forall|
                            j: int,
                        |
                            0 <= j < k ==> !(#[trigger] infos[j].bus_number == b
                                && infos[j].address == d)
                },
            },
    {
        let (busnum, devnum) = match parse_busid(busid) {
            Ok(p) => p,
            Err(_) => {
                return None;
            },
        };
        let entries = self.list_devices(probed);
        let ghost infos = present(probed@);
        let mut k: usize = 0;
        while k < entries.len()
            invariant
                k <= entries@.len(),
                infos == present(probed@),
                parse_busid_spec(busid.spec_bytes()) == Some((busnum, devnum)),
                entries@.len() == infos.len(),
                forall|j: int|
                    0 <= j < entries@.len() ==> entry_describes(#[trigger] entries@[j], infos[j]),
                forall|j: int|
                    0 <= j < k ==> !(#[trigger] infos[j].bus_number == busnum && infos[j].address
                        == devnum),
            decreases entries.len() - k,
        {
            let e = entries[k];
            assert(entry_describes(entries@[k as int], infos[k as int]));
            if e.busnum == busnum as u32 && e.devnum == devnum as u32 {
                proof {
                    assert(infos[k as int].bus_number == busnum && infos[k as int].address
                        == devnum);
                    assert(parse_busid_spec(busid.spec_bytes()) == Some((busnum, devnum)));
                }
                return Some(e);
            }
            k = k + 1;
        }
        None
    }

    /// Index of the first device at bus `busnum`, address `devnum`.
    pub fn find_device(&self, addrs: &Vec<(u8, u8)>, busnum: u8, devnum: u8) -> (r: Result<
        usize,
        UsbIpError,
    >)
        ensures
            r matches Ok(k) ==> first_at(addrs@, busnum, devnum, k as int),
            r is Err <==> forall|j: int| 0 <= j < addrs@.len() ==> addrs@[j] != (busnum, devnum),
            r matches Err(e) ==> (e matches UsbIpError::DeviceNotFound(m) && encode_utf8(m@)
                == not_found_text(busnum, devnum)),
    {
        let mut k: usize = 0;
        while k < addrs.len()
            invariant
                k <= addrs@.len(),
                forall|j: int| 0 <= j < k ==> addrs@[j] != (busnum, devnum),
            decreases addrs.len() - k,
        {
            let (b, d) = addrs[k];
            if b == busnum && d == devnum {
                return Ok(k);
            }
            k = k + 1;
        }
        let mut msg: Vec<u8> = Vec::new();
        push_str(&mut msg, "bus ");
        push_decimal(&mut msg, busnum as u32);
        push_str(&mut msg, " dev ");
        push_decimal(&mut msg, devnum as u32);
        proof {
            reveal_strlit("bus ");
            reveal_strlit(" dev ");
            lemma_decimal_ascii(busnum as nat);
            lemma_decimal_ascii(devnum as nat);
            vstd::string::is_ascii_spec_bytes("bus ");
            vstd::string::is_ascii_spec_bytes(" dev ");
            assert(is_ascii_bytes(msg@));
            lemma_ascii_valid_utf8(msg@);
        }
        Err(UsbIpError::DeviceNotFound(string_from_utf8_lossy(msg.as_slice())))
    }

    /// Records the handle of a device claimed for export under its bus id
    /// (replacing an earlier one); fails when the bus id does not parse.
    pub fn claim_device(&mut self, busid: &str, handle: H) -> (r: Result<(), UsbIpError>)
        requires
            old(self).wf(),
        ensures
            final(self).wf(),
            r is Ok <==> parse_busid_spec(busid.spec_bytes()) is Some,
            r is Ok ==> final(self).view() == old(self).view().insert(busid.spec_bytes(), handle),
            r is Err ==> final(self).view() == old(self).view(),
            r matches Err(e) ==> (e matches UsbIpError::DeviceNotFound(m) && m@ == busid@),
    {
        match parse_busid(busid) {
            Err(e) => Err(e),
            Ok(_) => {
                let key = slice_to_vec(busid.as_bytes());
                let _ = self.handles.insert(key, handle);
                Ok(())
            },
        }
    }

    /// Whether the bus id has a claimed device.
    pub fn is_claimed(&self, busid: &str) -> (r: bool)
        requires
            self.wf(),
        ensures
            r == self.view().dom().contains(busid.spec_bytes()),
    {
        self.handles.contains_key(busid.as_bytes())
    }

    /// The handle of the claimed device and the transfer to run for the URB;
    /// `DeviceNotFound` when the bus id has no claimed device.
    pub fn execute_urb(&self, busid: &str, cmd: &UsbIpCmdSubmit) -> (r: Result<
        (&H, TransferPlan),
        UsbIpError,
    >)
        requires
            self.wf(),
        ensures
            r is Ok <==> self.view().dom().contains(busid.spec_bytes()),
            r matches Ok((h, p)) ==> *h == self.view()[busid.spec_bytes()] && p == plan_spec(*cmd),
            r matches Err(e) ==> (e matches UsbIpError::DeviceNotFound(m) && m@ == busid@),
    {
        match self.handles.get(busid.as_bytes()) {
            Some(h) => Ok((h, plan_transfer(cmd))),
            None => Err(UsbIpError::DeviceNotFound(busid.to_owned())),
        }
    }

    /// Forgets the claimed device of the bus id; returns its handle so that
    /// its interfaces can be released.
    pub fn release_device(&mut self, busid: &str) -> (r: Option<H>)
        requires
            old(self).wf(),
        ensures
            final(self).wf(),
            final(self).view() == old(self).view().remove(busid.spec_bytes()),
            r is Some <==> old(self).view().dom().contains(busid.spec_bytes()),
            r matches Some(h) ==> h == old(self).view()[busid.spec_bytes()],
    {
        self.handles.remove(busid.as_bytes())
    }

    /// The descriptor tree of a device, as the import reply carries it:
    /// the device descriptor, then its configuration descriptor sets byte
    /// for byte.
    pub fn get_descriptor_tree(&self, desc: &DeviceDescriptor, configs: &Vec<Vec<u8>>) -> (r: Vec<u8>)
        ensures
            r@ == descriptor_tree_spec(*desc, sets_view(configs@)),
    {
        descriptor_tree(desc, configs)
    }
}

/// Message text of a device that no bus and address match.
pub open spec fn not_found_text(busnum: u8, devnum: u8) -> Seq<u8> {
    "bus ".spec_bytes() + decimal(busnum as nat) + " dev ".spec_bytes() + decimal(devnum as nat)
}

/// A copy of the bytes of a slice.
pub fn slice_to_vec(s: &[u8]) -> (r: Vec<u8>)
    ensures
        r@ == s@,
{
    let mut out: Vec<u8> = Vec::new();
    push_all(&mut out, s);
    assert(out@ =~= s@);
    out
}

} // verus!

verus! {

/// A claimed device is served with the handle it was claimed with until it
/// is released; releasing it leaves every other claimed device as it was.
pub proof fn law_claimed_until_released<H>(claimed: Map<Seq<u8>, H>, busid: Seq<u8>, other: Seq<u8>, h: H)
    ensures
        claimed.insert(busid, h).dom().contains(busid),
        claimed.insert(busid, h)[busid] == h,
        !claimed.insert(busid, h).remove(busid).dom().contains(busid),
        other != busid ==> (claimed.insert(busid, h).remove(busid).dom().contains(other)
            == claimed.dom().contains(other)),
        other != busid && claimed.dom().contains(other) ==> claimed.insert(busid, h).remove(busid)[other]
            == claimed[other],
{
}

} // verus!
