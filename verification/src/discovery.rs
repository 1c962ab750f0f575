//! What the server advertises over mDNS (`_usbip._tcp.local`) and how a
//! browse collects the servers it hears of.
//!
//! Each advertisement carries a `devices` TXT value listing the exportable
//! devices as comma-separated `vid=0xVVVV,pid=0xPPPP,bus=B-B,n=NAME`
//! tuples; `n` is `VVVV:PPPP` since the device record carries no product
//! name.
use vstd::prelude::*;
use vstd::string::StringSliceAdditionalSpecFns;
use vstd::utf8::{decode_utf8, encode_utf8, valid_utf8, valid_utf8_concat};
use crate::protocol::{UsbIpDeviceEntry, UsbIpError};
use crate::wire::{
    hex4, is_ascii_bytes, lemma_ascii_valid_utf8, lemma_hex4_ascii, lemma_str_ascii, push_hex4, push_str,
    string_from_utf8_lossy, utf8_lossy,
};

verus! {

/// mDNS service type of a USB/IP server.
pub open spec fn service_type() -> Seq<char> {
    "_usbip._tcp.local."@
}

/// The TXT text of one device; the bus id appears as the text
/// `busid_str` makes of it.
pub open spec fn device_txt(e: UsbIpDeviceEntry) -> Seq<u8> {
    "vid=0x".spec_bytes() + hex4(e.id_vendor) + ",pid=0x".spec_bytes() + hex4(e.id_product)
        + ",bus=".spec_bytes() + encode_utf8(utf8_lossy(e.spec_busid())) + ",n=".spec_bytes()
        + hex4(e.id_vendor) + seq![58u8] + hex4(e.id_product)
}

/// The `devices` TXT value: the texts of the devices joined by commas, in order.
pub open spec fn devices_txt(s: Seq<UsbIpDeviceEntry>) -> Seq<u8>
    decreases s.len(),
{
    if s.len() == 0 {
        Seq::empty()
    } else if s.len() == 1 {
        device_txt(s[0])
    } else {
        devices_txt(s.drop_last()) + seq![44u8] + device_txt(s.last())
    }
}

proof fn lemma_ascii_valid_str(s: &str)
    requires
        vstd::string::is_ascii(s),
    ensures
        valid_utf8(s.spec_bytes()),
{
    lemma_str_ascii(s);
    lemma_ascii_valid_utf8(s.spec_bytes());
}

proof fn lemma_device_txt_valid(e: UsbIpDeviceEntry)
    ensures
        valid_utf8(device_txt(e)),
{
    reveal_strlit("vid=0x");
    reveal_strlit(",pid=0x");
    reveal_strlit(",bus=");
    reveal_strlit(",n=");
    lemma_ascii_valid_str("vid=0x");
    lemma_ascii_valid_str(",pid=0x");
    lemma_ascii_valid_str(",bus=");
    lemma_ascii_valid_str(",n=");
    lemma_hex4_ascii(e.id_vendor);
    lemma_hex4_ascii(e.id_product);
    lemma_ascii_valid_utf8(hex4(e.id_vendor));
    lemma_ascii_valid_utf8(hex4(e.id_product));
    assert(is_ascii_bytes(seq![58u8]));
    lemma_ascii_valid_utf8(seq![58u8]);
    let busid = encode_utf8(utf8_lossy(e.spec_busid()));
    vstd::utf8::encode_utf8_valid_utf8(utf8_lossy(e.spec_busid()));
    let a = "vid=0x".spec_bytes() + hex4(e.id_vendor);
    valid_utf8_concat("vid=0x".spec_bytes(), hex4(e.id_vendor));
    let b = a + ",pid=0x".spec_bytes();
    valid_utf8_concat(a, ",pid=0x".spec_bytes());
    let c = b + hex4(e.id_product);
    valid_utf8_concat(b, hex4(e.id_product));
    let d = c + ",bus=".spec_bytes();
    valid_utf8_concat(c, ",bus=".spec_bytes());
    let f = d + busid;
    valid_utf8_concat(d, busid);
    let g = f + ",n=".spec_bytes();
    valid_utf8_concat(f, ",n=".spec_bytes());
    let h = g + hex4(e.id_vendor);
    valid_utf8_concat(g, hex4(e.id_vendor));
    let i = h + seq![58u8];
    valid_utf8_concat(h, seq![58u8]);
    valid_utf8_concat(i, hex4(e.id_product));
}

/// The `devices` TXT value is always valid UTF-8.
pub proof fn lemma_devices_txt_valid(s: Seq<UsbIpDeviceEntry>)
    ensures
        valid_utf8(devices_txt(s)),
    decreases s.len(),
{
    if s.len() == 1 {
        lemma_device_txt_valid(s[0]);
    } else if s.len() > 1 {
        lemma_devices_txt_valid(s.drop_last());
        lemma_device_txt_valid(s.last());
        assert(is_ascii_bytes(seq![44u8]));
        lemma_ascii_valid_utf8(seq![44u8]);
        valid_utf8_concat(devices_txt(s.drop_last()), seq![44u8]);
        valid_utf8_concat(devices_txt(s.drop_last()) + seq![44u8], device_txt(s.last()));
    } else {
        lemma_ascii_valid_utf8(Seq::<u8>::empty());
    }
}

fn push_device_txt(out: &mut Vec<u8>, e: &UsbIpDeviceEntry)
    ensures
        final(out)@ == old(out)@ + device_txt(*e),
{
    push_str(out, "vid=0x");
    push_hex4(out, e.vid());
    push_str(out, ",pid=0x");
    push_hex4(out, e.pid());
    push_str(out, ",bus=");
    let busid = e.busid_str();
    push_str(out, busid.as_str());
    push_str(out, ",n=");
    push_hex4(out, e.vid());
    out.push(58u8);
    push_hex4(out, e.pid());
    assert(out@ =~= old(out)@ + device_txt(*e));
}

/// Encodes the device list as the `devices` TXT value.
pub fn encode_devices_txt(devices: &[UsbIpDeviceEntry]) -> (r: String)
    ensures
        encode_utf8(r@) == devices_txt(devices@),
        r@ == decode_utf8(devices_txt(devices@)),
{
    let mut out: Vec<u8> = Vec::new();
    let mut i: usize = 0;
    while i < devices.len()
        invariant
            i <= devices@.len(),
            out@ == devices_txt(devices@.take(i as int)),
        decreases devices.len() - i,
    {
        if i > 0 {
            out.push(44u8);
        }
        push_device_txt(&mut out, &devices[i]);
        proof {
            assert(devices@.take(i + 1).drop_last() =~= devices@.take(i as int));
            if i == 0 {
                assert(devices@.take(1)[0] == devices@[0]);
            }
        }
        i = i + 1;
    }
    assert(devices@.take(i as int) =~= devices@);
    proof {
        lemma_devices_txt_valid(devices@);
    }
    let r = string_from_utf8_lossy(out.as_slice());
    proof {
        vstd::utf8::encode_utf8_decode_utf8(r@);
    }
    r
}

/// The mDNS instance name of a server: its host name, then the service type.
pub fn service_name(hostname: &str) -> (r: String)
    ensures
        r@ == hostname@ + "._usbip._tcp.local."@,
{
    let mut name = hostname.to_owned();
    name.append("._usbip._tcp.local.");
    name
}

/// The TXT properties of an advertisement: the protocol version, the
/// platform, and the `devices` list when there are devices to share.
pub open spec fn txt_properties_spec(platform: Seq<char>, devices: Seq<UsbIpDeviceEntry>) -> Seq<
    (Seq<char>, Seq<char>),
> {
    let base = seq![("version"@, "1.1.1"@), ("platform"@, platform)];
    if devices.len() == 0 {
        base
    } else {
        base.push(("devices"@, decode_utf8(devices_txt(devices))))
    }
}

/// Key and value of each property, as text.
pub open spec fn properties_view(p: Seq<(String, String)>) -> Seq<(Seq<char>, Seq<char>)> {
    p.map_values(|kv: (String, String)| (kv.0@, kv.1@))
}

/// The TXT properties of an advertisement: the protocol version, the
/// platform, and the `devices` list when there are devices to share.
pub fn txt_properties(platform: &str, devices: &[UsbIpDeviceEntry]) -> (r: Vec<(String, String)>)
    ensures
        properties_view(r@) == txt_properties_spec(platform@, devices@),
{
    let mut props: Vec<(String, String)> = Vec::new();
    props.push(("version".to_owned(), "1.1.1".to_owned()));
    props.push(("platform".to_owned(), platform.to_owned()));
    if devices.len() > 0 {
        props.push(("devices".to_owned(), encode_devices_txt(devices)));
    }
    assert(properties_view(props@) =~= txt_properties_spec(platform@, devices@));
    props
}

// ─── The service record ───────────────────────────────────────────

/// What a server hands to mDNS to advertise itself.
pub struct ServiceRecord {
    /// Service type, with its domain.
    pub ty_domain: String,
    /// Instance name.
    pub instance: String,
    /// Host name.
    pub host: String,
    /// Addresses, as text (comma-separated).
    pub ip: String,
    pub port: u16,
    /// TXT properties, key and value.
    pub properties: Vec<(String, String)>,
}

/// The record that advertises a server: instance "USB/IP Server" of
/// `_usbip._tcp.local.` on host `service_name` at `local_ip:port`, with the
/// TXT properties of [`txt_properties`].
pub fn service_record(
    service_name: &str,
    local_ip: &str,
    port: u16,
    platform: &str,
    devices: &[UsbIpDeviceEntry],
) -> (r: ServiceRecord)
    ensures
        r.ty_domain@ == service_type(),
        r.instance@ == "USB/IP Server"@,
        r.host@ == service_name@,
        r.ip@ == local_ip@,
        r.port == port,
        properties_view(r.properties@) == txt_properties_spec(platform@, devices@),
{
    ServiceRecord {
        ty_domain: "_usbip._tcp.local.".to_owned(),
        instance: "USB/IP Server".to_owned(),
        host: service_name.to_owned(),
        ip: local_ip.to_owned(),
        port,
        properties: txt_properties(platform, devices),
    }
}

#[verifier::external_type_specification]
#[verifier::external_body]
pub struct ExServiceInfo(mdns_sd::ServiceInfo);

#[verifier::external_type_specification]
#[verifier::external_body]
pub struct ExMdnsError(mdns_sd::Error);

/// Whether mdns-sd reads `ip` as a list of addresses: the text is empty,
/// or each of its comma-separated parts, trimmed, parses as an IP address.
pub uninterp spec fn ip_list_parses(ip: Seq<char>) -> bool;

/// A TXT key made of lowercase ASCII letters only.
pub open spec fn plain_txt_key(k: Seq<u8>) -> bool {
    k.len() > 0 && forall|i: int| 0 <= i < k.len() ==> 97 <= #[trigger] k[i] <= 122
}

/// Length of a TXT string `key=value`.
pub open spec fn txt_string_len(key: Seq<u8>, value: Seq<u8>) -> int {
    key.len() + value.len() + 1int
}

/// The keys of `p` are distinct, and each is made of lowercase ASCII letters.
pub open spec fn plain_distinct_keys(p: Seq<(Seq<char>, Seq<char>)>) -> bool {
    &&& forall|k: int| 0 <= k < p.len() ==> plain_txt_key(encode_utf8(#[trigger] p[k].0))
    &&& forall|j: int, k: int| 0 <= j < k < p.len() ==> #[trigger] p[j].0 != #[trigger] p[k].0
}

/// Every `key=value` string of `p` fits in the 255 bytes of a TXT string.
pub open spec fn txt_strings_fit(p: Seq<(Seq<char>, Seq<char>)>) -> bool {
    forall|k: int| 0 <= k < p.len() ==> txt_string_len(encode_utf8(#[trigger] p[k].0), encode_utf8(p[k].1)) <= 255
}

/// `mdns_sd::ServiceInfo::new` on the fields of `record`: service type,
/// instance name, host name, address text, port and TXT properties, each
/// handed over as it is.
///
/// The contract claims what the crate's source shows of when the call
/// succeeds, for keys that are distinct plain lowercase words (so that
/// none is dropped as a duplicate and none is refused for its characters):
/// exactly when the address text parses ([`ip_list_parses`]) and every
/// `key=value` string fits in the 255 bytes a TXT string can hold. What
/// the built `ServiceInfo` holds is not stated: it carries hash sets seeded
/// per process, so it gets no name.
#[verifier::external_body]
fn new_service_info(record: &ServiceRecord) -> (r: Result<mdns_sd::ServiceInfo, mdns_sd::Error>)
    ensures
        plain_distinct_keys(properties_view(record.properties@)) ==> (r is Ok <==> (ip_list_parses(record.ip@) && txt_strings_fit(properties_view(record.properties@)))),
{
    let props: Vec<(&str, &str)> =
        record.properties.iter().map(|(k, v)| (k.as_str(), v.as_str())).collect();
    mdns_sd::ServiceInfo::new(
        record.ty_domain.as_str(),
        record.instance.as_str(),
        record.host.as_str(),
        record.ip.as_str(),
        record.port,
        props.as_slice(),
    )
}

/// The text of an mdns-sd error (its `Display`).
#[verifier::external_body]
fn mdns_error_text(e: &mdns_sd::Error) -> String {
    format!("{}", e)
}

/// Whether mdns-sd accepts the advertisement of [`service_record`]: the
/// address text parses, and the `platform` and `devices` TXT strings fit
/// in 255 bytes each.
pub open spec fn advertisement_accepted(local_ip: Seq<char>, platform: Seq<char>, devices: Seq<UsbIpDeviceEntry>) -> bool {
    &&& ip_list_parses(local_ip)
    &&& 8 + encode_utf8(platform).len() + 1 <= 255
    &&& devices.len() > 0 ==> 7 + devices_txt(devices).len() + 1 <= 255
}

/// The mDNS service of [`service_record`], built by mdns-sd. Succeeds
/// exactly when [`advertisement_accepted`]; otherwise fails with
/// `NotSupported` and mdns-sd's reason.
pub fn service_info(
    service_name: &str,
    local_ip: &str,
    port: u16,
    platform: &str,
    devices: &[UsbIpDeviceEntry],
) -> (r: Result<mdns_sd::ServiceInfo, UsbIpError>)
    ensures
        r is Ok <==> advertisement_accepted(local_ip@, platform@, devices@),
        r matches Err(e) ==> e is NotSupported,
{
    let record = service_record(service_name, local_ip, port, platform, devices);
    proof {
        let pv = properties_view(record.properties@);
        assert(pv[0] == ("version"@, "1.1.1"@));
        assert(pv[1] == ("platform"@, platform@));
        assert(devices@.len() > 0 ==> pv[2] == ("devices"@, decode_utf8(devices_txt(devices@))));
        assert(pv.len() == if devices@.len() == 0 { 2int } else { 3int });
        reveal_strlit("version");
        reveal_strlit("platform");
        reveal_strlit("devices");
        reveal_strlit("1.1.1");
        vstd::string::is_ascii_spec_bytes("version");
        vstd::string::is_ascii_spec_bytes("platform");
        vstd::string::is_ascii_spec_bytes("devices");
        vstd::string::is_ascii_spec_bytes("1.1.1");
        assert(pv[0].0 != pv[1].0);
        if devices@.len() > 0 {
            assert(pv[0].0 != pv[2].0);
            assert(pv[1].0 != pv[2].0);
            lemma_devices_txt_valid(devices@);
            vstd::utf8::decode_utf8_encode_utf8(devices_txt(devices@));
        }
        assert(plain_distinct_keys(pv));
        assert(txt_strings_fit(pv) <==> (8 + encode_utf8(platform@).len() + 1 <= 255 && (
        devices@.len() > 0 ==> 7 + devices_txt(devices@).len() + 1 <= 255))) by {
            assert(txt_string_len(encode_utf8(pv[0].0), encode_utf8(pv[0].1)) <= 255);
        }
    }
    match new_service_info(&record) {
        Ok(info) => Ok(info),
        Err(e) => {
            let mut msg = "mDNS service creation failed: ".to_owned();
            let detail = mdns_error_text(&e);
            msg.append(detail.as_str());
            Err(UsbIpError::NotSupported(msg))
        },
    }
}

// ─── Browsing ─────────────────────────────────────────────────────

/// A USB/IP server heard of on the network.
#[derive(Debug, Clone)]
pub struct DiscoveredServer {
    pub host: String,
    pub port: u16,
    pub txt: Vec<(String, String)>,
}

/// What the mDNS browse reports.
pub enum BrowseEvent {
    /// A service was resolved under its full name.
    Resolved { fullname: String, server: DiscoveredServer },
    /// The search ended.
    SearchStopped,
    /// Receiving failed or timed out.
    ReceiveFailed,
    /// Anything else (found, removed, ...).
    Other,
}

/// The servers heard of so far, one per full name, in the order first heard.
pub struct BrowseCollector {
    names: Vec<String>,
    servers: Vec<DiscoveredServer>,
}

impl BrowseCollector {
    /// Full names of the servers collected, in order.
    pub closed spec fn spec_names(&self) -> Seq<Seq<char>> {
        self.names@.map_values(|n: String| n@)
    }

    /// The servers collected, in order.
    pub closed spec fn spec_servers(&self) -> Seq<DiscoveredServer> {
        self.servers@
    }

    pub closed spec fn wf(&self) -> bool {
        &&& self.names@.len() == self.servers@.len()
        &&& self.spec_names().no_duplicates()
    }

    pub fn new() -> (c: Self)
        ensures
            c.wf(),
            c.spec_names().len() == 0,
            c.spec_servers().len() == 0,
    {
        let c = BrowseCollector { names: Vec::new(), servers: Vec::new() };
        assert(c.spec_names() =~= Seq::<Seq<char>>::empty());
        c
    }

    /// Takes one event; returns whether browsing goes on. A resolved
    /// service is kept unless one of the same full name was kept before.
    pub fn on_event(&mut self, event: BrowseEvent) -> (r: bool)
        requires
            old(self).wf(),
        ensures
            final(self).wf(),
            match event {
                BrowseEvent::Resolved { fullname, server } => {
                    &&& r
                    &&& if old(self).spec_names().contains(fullname@) {
                        final(self).spec_names() == old(self).spec_names()
                            && final(self).spec_servers() == old(self).spec_servers()
                    } else {
                        final(self).spec_names() == old(self).spec_names().push(fullname@)
                            && final(self).spec_servers() == old(self).spec_servers().push(server)
                    }
                },
                BrowseEvent::SearchStopped | BrowseEvent::ReceiveFailed => !r
                    && final(self).spec_names() == old(self).spec_names()
                    && final(self).spec_servers() == old(self).spec_servers(),
                BrowseEvent::Other => r && final(self).spec_names() == old(self).spec_names()
                    && final(self).spec_servers() == old(self).spec_servers(),
            },
    {
        match event {
            BrowseEvent::Resolved { fullname, server } => {
                self.on_resolved(fullname, server);
                true
            },
            BrowseEvent::SearchStopped | BrowseEvent::ReceiveFailed => false,
            BrowseEvent::Other => true,
        }
    }

    fn on_resolved(&mut self, fullname: String, server: DiscoveredServer)
        requires
            old(self).wf(),
        ensures
            final(self).wf(),
            if old(self).spec_names().contains(fullname@) {
                final(self).spec_names() == old(self).spec_names()
                    && final(self).spec_servers() == old(self).spec_servers()
            } else {
                final(self).spec_names() == old(self).spec_names().push(fullname@)
                    && final(self).spec_servers() == old(self).spec_servers().push(server)
            },
    {
        let mut i: usize = 0;
        while i < self.names.len()
            invariant
                i <= self.names@.len(),
                self.wf(),
                self.spec_names() == old(self).spec_names(),
                self.spec_servers() == old(self).spec_servers(),
                forall|j: int| 0 <= j < i ==> self.names@[j]@ != fullname@,
            decreases self.names.len() - i,
        {
            if self.names[i] == fullname {
                assert(self.spec_names()[i as int] == fullname@);
                return;
            }
            i = i + 1;
        }
        proof {
            assert forall|j: int| 0 <= j < self.spec_names().len() implies self.spec_names()[j]
                != fullname@ by {
                assert(self.spec_names()[j] == self.names@[j]@);
            }
        }
        let ghost before = self.spec_names();
        self.names.push(fullname);
        self.servers.push(server);
        assert(self.spec_names() =~= before.push(fullname@));
    }

    /// The servers collected, in the order first heard.
    pub fn into_servers(self) -> (r: Vec<DiscoveredServer>)
        ensures
            r@ == self.spec_servers(),
    {
        self.servers
    }
}

} // verus!
