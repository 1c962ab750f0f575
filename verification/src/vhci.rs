//! The client's virtual host controller driver: which ports it offers, and
//! the exact writes (sysfs files on Linux and Android, IOCTL input on
//! Windows) that attach a device, complete or cancel a URB, and detach.
//! The caller performs each write; this module decides what it is.
use vstd::prelude::*;
use vstd::string::StringSliceAdditionalSpecFns;
use vstd::utf8::encode_utf8;
use crate::protocol::{UsbIpDeviceEntry, UsbIpError};
use crate::vhci_backend::{VhciDevice, device_for_entry};
use crate::wire::{
    ascii_string, be32, contains_exec, contains_seq, decimal, find_byte, find_byte_exec,
    is_ascii_bytes, le32, lemma_decimal_ascii, lemma_find_byte, lemma_str_ascii, push_all,
    push_be32, push_decimal, push_le32, push_str,
};

verus! {

/// Operating system family of the client.
#[derive(Debug, Clone, Copy, PartialEq, Eq, Structural)]
pub enum Platform {
    Linux,
    Windows,
    Android,
    Unsupported,
}

/// What the host shows of the Linux VHCI module.
#[derive(Debug, Clone, Copy, PartialEq, Eq, Structural)]
pub enum VhciProbe {
    /// The vhci_hcd platform device exists; `status_entries` counts the
    /// entries of its `status` directory (`None` when it could not be read).
    Present { status_entries: Option<usize> },
    /// The module is not loaded; `modprobe_started` tells whether
    /// `modprobe vhci-hcd` could be started.
    Missing { modprobe_started: bool },
}

/// A write that the caller performs for the driver.
pub enum VhciRequest {
    /// Write `contents` to `file`, relative to the VHCI sysfs directory;
    /// a failed write is an error unless `ignore_errors`.
    SysfsWrite { file: String, contents: Vec<u8>, ignore_errors: bool },
    /// Send the Windows attach IOCTL with this input buffer.
    WindowsAttach { input: Vec<u8> },
    /// Nothing to write.
    Nothing,
}

/// Ports offered when the port count cannot be read.
pub const DEFAULT_VHCI_PORTS: u32 = 8;

/// Ports offered by the Windows VHCI driver.
pub const WINDOWS_VHCI_PORTS: u32 = 127;

/// VHCI driver abstraction.
pub struct VhciDriver {
    platform: Platform,
    num_ports: u32,
    sysfs_path: Option<String>,
}

pub open spec fn linux_like(p: Platform) -> bool {
    p == Platform::Linux || p == Platform::Android
}

pub open spec fn vhci_sysfs_dir() -> Seq<char> {
    "/sys/devices/platform/vhci_hcd.0"@
}

/// `r` is a `NotSupported` error carrying the text `msg`.
pub open spec fn not_supported<T>(r: Result<T, UsbIpError>, msg: Seq<char>) -> bool {
    r matches Err(e) && (e matches UsbIpError::NotSupported(m) && m@ == msg)
}

/// `r` is a sysfs write of exactly `contents` to `file`.
pub open spec fn writes(r: VhciRequest, file: Seq<u8>, contents: Seq<u8>, ignore_errors: bool) -> bool {
    r matches VhciRequest::SysfsWrite { file: f, contents: c, ignore_errors: i } && encode_utf8(f@)
        == file && c@ == contents && i == ignore_errors
}

/// One line of text as the sysfs `status` file lists a port: it names a
/// port and does not say the port is in use.
pub open spec fn line_is_free(line: Seq<u8>) -> bool {
    contains_seq(line, "Port".spec_bytes()) && !contains_seq(line, "Attached".spec_bytes())
}

/// Index (counting from `idx` at byte `start`) of the first free line of
/// the status text, lines being split at `\n` (a `\r` before it, or an
/// empty last line, changes nothing in which line is free).
pub open spec fn first_free_line(s: Seq<u8>, start: int, idx: int) -> Option<int>
    decreases s.len() - start,
{
    if start < 0 || start > s.len() {
        None
    } else {
        let rest = s.skip(start);
        let n = find_byte(rest, 10u8);
        if n < 0 {
            None
        } else if line_is_free(rest.take(n)) {
            Some(idx)
        } else if start + n >= s.len() {
            None
        } else {
            first_free_line(s, start + n + 1, idx + 1)
        }
    }
}

/// Attach command text: `"<port> <devid> <speed>\n"`.
pub open spec fn attach_text(port: u32, devid: u32, speed: u32) -> Seq<u8> {
    decimal(port as nat) + seq![32u8] + decimal(devid as nat) + seq![32u8] + decimal(speed as nat)
        + seq![10u8]
}

/// Path of a per-port file: `"port<n>/<name>"`.
pub open spec fn port_file(port: u32, name: Seq<u8>) -> Seq<u8> {
    "port".spec_bytes() + decimal(port as nat) + seq![47u8] + name
}

/// Payload of a URB completion: seqnum, status, length (big-endian), then the data.
pub open spec fn urb_complete_payload(seqnum: u32, status: i32, actual_length: u32, data: Seq<u8>) -> Seq<u8> {
    be32(seqnum) + be32(status as u32) + be32(actual_length) + data
}

/// Descriptor block for the Windows driver: the length (little-endian), then the descriptors.
pub open spec fn windows_descriptor_block(descriptors: Seq<u8>) -> Seq<u8> {
    le32(descriptors.len() as u32) + descriptors
}

/// Input of the Windows attach IOCTL: port, device id, speed (little-endian), then the block.
pub open spec fn windows_attach_input(port: u32, devid: u32, speed: u32, block: Seq<u8>) -> Seq<u8> {
    le32(port) + le32(devid) + le32(speed) + block
}

/// A URB completion written to `urb_complete`: seqnum, status and actual
/// length big-endian at bytes 0..4, 4..8 and 8..12, then the data unchanged.
pub proof fn law_urb_complete_payload_layout(seqnum: u32, status: i32, actual_length: u32, data: Seq<u8>)
    ensures
        urb_complete_payload(seqnum, status, actual_length, data).len() == 12 + data.len(),
        urb_complete_payload(seqnum, status, actual_length, data).subrange(0, 4) == be32(seqnum),
        urb_complete_payload(seqnum, status, actual_length, data).subrange(4, 8) == be32(status as u32),
        urb_complete_payload(seqnum, status, actual_length, data).subrange(8, 12) == be32(actual_length),
        urb_complete_payload(seqnum, status, actual_length, data).skip(12) == data,
{
    let b = urb_complete_payload(seqnum, status, actual_length, data);
    assert(b.subrange(0, 4) =~= be32(seqnum));
    assert(b.subrange(4, 8) =~= be32(status as u32));
    assert(b.subrange(8, 12) =~= be32(actual_length));
    assert(b.skip(12) =~= data);
}

/// The Windows attach input: port, device id and speed little-endian at
/// bytes 0..4, 4..8 and 8..12, the descriptor tree's length little-endian
/// at 12..16, then the descriptor tree unchanged.
pub proof fn law_windows_attach_layout(port: u32, devid: u32, speed: u32, descriptors: Seq<u8>)
    ensures
        windows_attach_input(port, devid, speed, windows_descriptor_block(descriptors)).len() == 16
            + descriptors.len(),
        windows_attach_input(port, devid, speed, windows_descriptor_block(descriptors)).subrange(0, 4)
            == le32(port),
        windows_attach_input(port, devid, speed, windows_descriptor_block(descriptors)).subrange(4, 8)
            == le32(devid),
        windows_attach_input(port, devid, speed, windows_descriptor_block(descriptors)).subrange(8, 12)
            == le32(speed),
        windows_attach_input(port, devid, speed, windows_descriptor_block(descriptors)).subrange(12, 16)
            == le32(descriptors.len() as u32),
        windows_attach_input(port, devid, speed, windows_descriptor_block(descriptors)).skip(16)
            == descriptors,
{
    let b = windows_attach_input(port, devid, speed, windows_descriptor_block(descriptors));
    assert(b.subrange(0, 4) =~= le32(port));
    assert(b.subrange(4, 8) =~= le32(devid));
    assert(b.subrange(8, 12) =~= le32(speed));
    assert(b.subrange(12, 16) =~= le32(descriptors.len() as u32));
    assert(b.skip(16) =~= descriptors);
}

fn text_file(bytes: &Vec<u8>) -> (r: String)
    requires
        is_ascii_bytes(bytes@),
    ensures
        encode_utf8(r@) == bytes@,
{
    ascii_string(bytes)
}

impl VhciDriver {
    pub closed spec fn spec_platform(&self) -> Platform {
        self.platform
    }

    pub closed spec fn spec_num_ports(&self) -> u32 {
        self.num_ports
    }

    /// The driver's sysfs directory, when it has one.
    pub closed spec fn spec_sysfs_path(&self) -> Option<Seq<char>> {
        match self.sysfs_path {
            Some(p) => Some(p@),
            None => None,
        }
    }

    /// Initializes the driver for `platform`. On Linux and Android the
    /// port count is the number of `status` entries (8 when they cannot be
    /// read, or after loading the module); it fails when the module is
    /// missing and cannot be loaded, and on unsupported platforms.
    pub fn new(platform: Platform, probe: VhciProbe) -> (r: Result<VhciDriver, UsbIpError>)
        ensures
            match platform {
                Platform::Linux | Platform::Android => match probe {
                    VhciProbe::Missing { modprobe_started: false } => not_supported(
                        r,
                        "vhci-hcd kernel module not available. Install with: sudo modprobe vhci-hcd"@,
                    ),
                    _ => r matches Ok(d) && d.spec_platform() == platform
                        && d.spec_sysfs_path() == Some(vhci_sysfs_dir()) && d.spec_num_ports()
                        == match probe {
                        VhciProbe::Present { status_entries: Some(n) } => n as u32,
                        _ => DEFAULT_VHCI_PORTS,
                    },
                },
                Platform::Windows => r matches Ok(d) && d.spec_platform() == platform
                    && d.spec_sysfs_path() is None && d.spec_num_ports() == WINDOWS_VHCI_PORTS,
                Platform::Unsupported => not_supported(r, "VHCI not available on this platform"@),
            },
    {
        match platform {
            Platform::Linux | Platform::Android => {
                let num_ports = match probe {
                    VhciProbe::Present { status_entries: Some(n) } => n as u32,
                    VhciProbe::Present { status_entries: None } => DEFAULT_VHCI_PORTS,
                    VhciProbe::Missing { modprobe_started: true } => DEFAULT_VHCI_PORTS,
                    VhciProbe::Missing { modprobe_started: false } => {
                        return Err(
                            UsbIpError::NotSupported(
                                "vhci-hcd kernel module not available. Install with: sudo modprobe vhci-hcd".to_owned(),
                            ),
                        );
                    },
                };
                Ok(
                    VhciDriver {
                        platform,
                        num_ports,
                        sysfs_path: Some("/sys/devices/platform/vhci_hcd.0".to_owned()),
                    },
                )
            },
            Platform::Windows => Ok(
                VhciDriver { platform, num_ports: WINDOWS_VHCI_PORTS, sysfs_path: None },
            ),
            Platform::Unsupported => Err(
                UsbIpError::NotSupported("VHCI not available on this platform".to_owned()),
            ),
        }
    }

    pub fn platform(&self) -> (r: Platform)
        ensures
            r == self.spec_platform(),
    {
        self.platform
    }

    pub fn num_ports(&self) -> (r: u32)
        ensures
            r == self.spec_num_ports(),
    {
        self.num_ports
    }

    /// The sysfs directory that request files are relative to.
    pub fn sysfs_path(&self) -> (r: Option<&String>)
        ensures
            match r {
                Some(p) => self.spec_sysfs_path() == Some(p@),
                None => self.spec_sysfs_path() is None,
            },
    {
        match &self.sysfs_path {
            Some(p) => Some(p),
            None => None,
        }
    }

    /// The port for a new device. On Linux and Android: the index of the
    /// first line of the sysfs `status` text that names a port and does not
    /// say it is attached, or port 0 when there is none; port 0 on Windows.
    /// `status` is the text of the `status` file, empty when it cannot be
    /// read as text.
    pub fn find_free_port(&self, status: &str) -> (r: Result<u32, UsbIpError>)
        ensures
            match self.spec_platform() {
                Platform::Linux | Platform::Android => match self.spec_sysfs_path() {
                    None => not_supported(r, "no sysfs path"@),
                    Some(_) => r matches Ok(p) && p == match first_free_line(status.spec_bytes(), 0, 0) {
                        Some(k) => k as u32,
                        None => 0u32,
                    },
                },
                Platform::Windows => r matches Ok(p) && p == 0,
                Platform::Unsupported => not_supported(r, "VHCI not available"@),
            },
    {
        match self.platform {
            Platform::Linux | Platform::Android => {
                if self.sysfs_path.is_none() {
                    return Err(UsbIpError::NotSupported("no sysfs path".to_owned()));
                }
                Ok(free_port_in_status(status.as_bytes()))
            },
            Platform::Windows => Ok(0),
            Platform::Unsupported => Err(UsbIpError::NotSupported("VHCI not available".to_owned())),
        }
    }

    /// Creates a virtual device for `entry`: on Linux and Android the
    /// `attach` write `"<port> <port> <speed>\n"` for a free port; on
    /// Windows the attach IOCTL input with port 0 and the descriptor block.
    pub fn create_device(&self, entry: &UsbIpDeviceEntry, descriptors: &[u8], status: &str) -> (r:
        Result<(VhciDevice, VhciRequest), UsbIpError>)
        ensures
            match self.spec_platform() {
                Platform::Linux | Platform::Android => match self.spec_sysfs_path() {
                    None => not_supported(r, "no sysfs path"@),
                    Some(_) => {
                        let port = match first_free_line(status.spec_bytes(), 0, 0) {
                            Some(k) => k as u32,
                            None => 0u32,
                        };
                        r matches Ok((d, req)) && d.port == port && device_for_entry(d, *entry)
                            && writes(req, "attach".spec_bytes(), attach_text(port, port, entry.speed), false)
                    },
                },
                Platform::Windows => r matches Ok((d, req)) && d.port == 0 && device_for_entry(
                    d,
                    *entry,
                ) && (req matches VhciRequest::WindowsAttach { input } && input@
                    == windows_attach_input(0, 0, entry.speed, windows_descriptor_block(descriptors@))),
                Platform::Unsupported => not_supported(r, "VHCI not available"@),
            },
    {
        match self.platform {
            Platform::Linux | Platform::Android => {
                let port = match self.find_free_port(status) {
                    Ok(p) => p,
                    Err(e) => {
                        return Err(e);
                    },
                };
                let devid = port;
                let speed = entry.speed_val();
                let mut text: Vec<u8> = Vec::new();
                push_decimal(&mut text, port);
                text.push(32u8);
                push_decimal(&mut text, devid);
                text.push(32u8);
                push_decimal(&mut text, speed);
                text.push(10u8);
                let mut name: Vec<u8> = Vec::new();
                push_str(&mut name, "attach");
                proof {
                    assert(text@ =~= attach_text(port, devid, speed));
                    lemma_decimal_ascii(port as nat);
                    lemma_decimal_ascii(speed as nat);
                    reveal_strlit("attach");
                    lemma_str_ascii("attach");
                }
                let device = VhciDevice {
                    port,
                    devid,
                    busid: entry.busid_str(),
                    vid: entry.vid(),
                    pid: entry.pid(),
                };
                let req = VhciRequest::SysfsWrite {
                    file: text_file(&name),
                    contents: text,
                    ignore_errors: false,
                };
                Ok((device, req))
            },
            Platform::Windows => {
                let port: u32 = 0;
                let devid = port;
                let block = build_windows_descriptor_block(entry, descriptors);
                let mut input: Vec<u8> = Vec::new();
                push_le32(&mut input, port);
                push_le32(&mut input, devid);
                push_le32(&mut input, entry.speed_val());
                push_all(&mut input, block.as_slice());
                let device = VhciDevice {
                    port,
                    devid,
                    busid: entry.busid_str(),
                    vid: entry.vid(),
                    pid: entry.pid(),
                };
                Ok((device, VhciRequest::WindowsAttach { input }))
            },
            Platform::Unsupported => Err(UsbIpError::NotSupported("VHCI not available".to_owned())),
        }
    }

    /// Delivers a URB completion: on Linux and Android the write of
    /// seqnum, status, length and data to `port<devid>/urb_complete`;
    /// nothing to write on Windows.
    pub fn complete_urb(&self, seqnum: u32, devid: u32, status: i32, actual_length: u32, data: &[u8]) -> (r:
        Result<VhciRequest, UsbIpError>)
        ensures
            match self.spec_platform() {
                Platform::Linux | Platform::Android => match self.spec_sysfs_path() {
                    None => not_supported(r, "no sysfs path"@),
                    Some(_) => r matches Ok(req) && writes(
                        req,
                        port_file(devid, "urb_complete".spec_bytes()),
                        urb_complete_payload(seqnum, status, actual_length, data@),
                        false,
                    ),
                },
                Platform::Windows => r matches Ok(VhciRequest::Nothing),
                Platform::Unsupported => not_supported(r, "VHCI not available"@),
            },
    {
        match self.platform {
            Platform::Linux | Platform::Android => {
                if self.sysfs_path.is_none() {
                    return Err(UsbIpError::NotSupported("no sysfs path".to_owned()));
                }
                proof {
                    reveal_strlit("urb_complete");
                }
                let file = port_file_name(devid, "urb_complete");
                let mut buf: Vec<u8> = Vec::new();
                push_be32(&mut buf, seqnum);
                push_be32(&mut buf, #[verifier::truncate] (status as u32));
                push_be32(&mut buf, actual_length);
                push_all(&mut buf, data);
                assert(buf@ =~= urb_complete_payload(seqnum, status, actual_length, data@));
                Ok(VhciRequest::SysfsWrite { file, contents: buf, ignore_errors: false })
            },
            Platform::Windows => Ok(VhciRequest::Nothing),
            Platform::Unsupported => Err(UsbIpError::NotSupported("VHCI not available".to_owned())),
        }
    }

    /// Cancels an in-flight URB: on Linux and Android the write of the
    /// seqnum to `port<devid>/urb_unlink`, whose failure is ignored (the URB
    /// may have completed already); nothing on other platforms.
    pub fn cancel_urb(&self, seqnum: u32, devid: u32) -> (r: Result<VhciRequest, UsbIpError>)
        ensures
            match self.spec_platform() {
                Platform::Linux | Platform::Android => match self.spec_sysfs_path() {
                    None => not_supported(r, "no sysfs path"@),
                    Some(_) => r matches Ok(req) && writes(
                        req,
                        port_file(devid, "urb_unlink".spec_bytes()),
                        be32(seqnum),
                        true,
                    ),
                },
                _ => r matches Ok(VhciRequest::Nothing),
            },
    {
        match self.platform {
            Platform::Linux | Platform::Android => {
                if self.sysfs_path.is_none() {
                    return Err(UsbIpError::NotSupported("no sysfs path".to_owned()));
                }
                proof {
                    reveal_strlit("urb_unlink");
                }
                let file = port_file_name(devid, "urb_unlink");
                let mut buf: Vec<u8> = Vec::new();
                push_be32(&mut buf, seqnum);
                assert(buf@ =~= be32(seqnum));
                Ok(VhciRequest::SysfsWrite { file, contents: buf, ignore_errors: true })
            },
            _ => Ok(VhciRequest::Nothing),
        }
    }

    /// Removes a virtual device: on Linux and Android the write of
    /// `"<port>\n"` to `detach`; nothing on other platforms.
    pub fn remove_device(&self, port: u32) -> (r: Result<VhciRequest, UsbIpError>)
        ensures
            match self.spec_platform() {
                Platform::Linux | Platform::Android => match self.spec_sysfs_path() {
                    None => not_supported(r, "no sysfs path"@),
                    Some(_) => r matches Ok(req) && writes(
                        req,
                        "detach".spec_bytes(),
                        decimal(port as nat).push(10u8),
                        false,
                    ),
                },
                _ => r matches Ok(VhciRequest::Nothing),
            },
    {
        match self.platform {
            Platform::Linux | Platform::Android => {
                if self.sysfs_path.is_none() {
                    return Err(UsbIpError::NotSupported("no sysfs path".to_owned()));
                }
                let mut text: Vec<u8> = Vec::new();
                push_decimal(&mut text, port);
                text.push(10u8);
                let mut name: Vec<u8> = Vec::new();
                push_str(&mut name, "detach");
                proof {
                    assert(text@ =~= decimal(port as nat).push(10u8));
                    reveal_strlit("detach");
                    lemma_str_ascii("detach");
                }
                Ok(VhciRequest::SysfsWrite { file: text_file(&name), contents: text, ignore_errors: false })
            },
            _ => Ok(VhciRequest::Nothing),
        }
    }
}

/// `"port<n>/<name>"` as text.
fn port_file_name(port: u32, name: &str) -> (r: String)
    requires
        vstd::string::is_ascii(name),
    ensures
        encode_utf8(r@) == port_file(port, name.spec_bytes()),
{
    let mut bytes: Vec<u8> = Vec::new();
    push_str(&mut bytes, "port");
    push_decimal(&mut bytes, port);
    bytes.push(47u8);
    push_str(&mut bytes, name);
    proof {
        reveal_strlit("port");
        lemma_str_ascii("port");
        lemma_str_ascii(name);
        lemma_decimal_ascii(port as nat);
        assert(bytes@ =~= port_file(port, name.spec_bytes()));
    }
    text_file(&bytes)
}

/// The first free line of the status text, or port 0.
fn free_port_in_status(status: &[u8]) -> (r: u32)
    ensures
        r == match first_free_line(status@, 0, 0) {
            Some(k) => k as u32,
            None => 0u32,
        },
{
    let port_word = "Port".as_bytes();
    let attached_word = "Attached".as_bytes();
    let mut start: usize = 0;
    let mut idx: usize = 0;
    while start <= status.len()
        invariant
            start <= status@.len(),
            idx <= start,
            port_word@ == "Port".spec_bytes(),
            attached_word@ == "Attached".spec_bytes(),
            first_free_line(status@, 0, 0) == first_free_line(status@, start as int, idx as int),
        decreases status.len() - start,
    {
        let rest = &status[start..status.len()];
        let n = find_byte_exec(rest, 10u8);
        proof {
            lemma_find_byte(rest@, 10u8);
            assert(rest@ =~= status@.skip(start as int));
        }
        let line = &rest[0..n];
        assert(line@ =~= rest@.take(n as int));
        if contains_exec(line, port_word) && !contains_exec(line, attached_word) {
            return idx as u32;
        }
        if start + n >= status.len() {
            return 0;
        }
        start = start + n + 1;
        idx = idx + 1;
    }
    0
}

/// The platform of a build for the target OS `target_os` (as
/// `std::env::consts::OS` names it): Linux for "linux", Android (which
/// uses vhci-hcd like Linux) for "android", Windows for "windows",
/// unsupported otherwise.
pub fn detect_platform(target_os: &str) -> (r: Platform)
    ensures
        r == if target_os@ == "linux"@ {
            Platform::Linux
        } else if target_os@ == "android"@ {
            Platform::Android
        } else if target_os@ == "windows"@ {
            Platform::Windows
        } else {
            Platform::Unsupported
        },
{
    let os = target_os.to_owned();
    if os == "linux".to_owned() {
        Platform::Linux
    } else if os == "android".to_owned() {
        Platform::Android
    } else if os == "windows".to_owned() {
        Platform::Windows
    } else {
        Platform::Unsupported
    }
}

/// Whether a VHCI backend exists for `platform`: Linux and Android use
/// the vhci-hcd module, Windows the usbip-win2 driver; any other platform
/// is refused.
pub fn backend_available(platform: Platform) -> (r: Result<(), UsbIpError>)
    ensures
        platform == Platform::Unsupported ==> not_supported(r, "VHCI is only supported on Linux and Windows"@),
        platform != Platform::Unsupported ==> r is Ok,
{
    match platform {
        Platform::Unsupported => Err(
            UsbIpError::NotSupported("VHCI is only supported on Linux and Windows".to_owned()),
        ),
        _ => Ok(()),
    }
}

/// Descriptor block for the Windows driver: total length (4 bytes,
/// little-endian), then the raw descriptor tree.
pub fn build_windows_descriptor_block(entry: &UsbIpDeviceEntry, descriptors: &[u8]) -> (r: Vec<u8>)
    ensures
        r@ == windows_descriptor_block(descriptors@),
{
    let mut block: Vec<u8> = Vec::new();
    push_le32(&mut block, descriptors.len() as u32);
    push_all(&mut block, descriptors);
    block
}

} // verus!
