//! The client's seam to a virtual host controller: the operations every
//! backend offers, the handle of a created virtual device, and a recording
//! backend for tests.
use vstd::prelude::*;
use vstd::utf8::{encode_utf8, valid_utf8};
use crate::protocol::{UsbIpDeviceEntry, UsbIpError};
use crate::usb::slice_to_vec;
use crate::wire::utf8_lossy;

verus! {

/// Handle for a virtual USB device created via VHCI.
#[derive(Debug, Clone)]
pub struct VhciDevice {
    pub port: u32,
    pub devid: u32,
    pub busid: String,
    pub vid: u16,
    pub pid: u16,
}

/// `d` is the virtual device made for the exported device `entry`: its bus
/// id is the text `busid_str` makes of the record's, same vendor and
/// product, and the port is its device id.
pub open spec fn device_for_entry(d: VhciDevice, entry: UsbIpDeviceEntry) -> bool {
    &&& d.devid == d.port
    &&& d.vid == entry.id_vendor
    &&& d.pid == entry.id_product
    &&& d.busid@ == utf8_lossy(entry.spec_busid())
    &&& valid_utf8(entry.spec_busid()) ==> encode_utf8(d.busid@) == entry.spec_busid()
}

/// Operations of a virtual host controller, one per USB/IP VHCI operation.
/// Backends are written by the platform code and by users (tests, other
/// clients); `inv` is what a backend keeps between calls.
pub trait VhciBackend {
    /// What the backend keeps between calls (nothing, unless it says so).
    open spec fn inv(&self) -> bool {
        true
    }

    /// Create a virtual USB device from descriptor data.
    fn create_device(&mut self, entry: &UsbIpDeviceEntry, descriptors: &[u8]) -> (r: Result<
        VhciDevice,
        UsbIpError,
    >)
        requires
            old(self).inv(),
        ensures
            final(self).inv(),
            r matches Ok(d) ==> device_for_entry(d, *entry),
    ;

    /// Complete a URB (USBIP_RET_SUBMIT received from server).
    fn complete_urb(
        &mut self,
        seqnum: u32,
        devid: u32,
        status: i32,
        actual_length: u32,
        data: &[u8],
    ) -> (r: Result<(), UsbIpError>)
        requires
            old(self).inv(),
        ensures
            final(self).inv(),
    ;

    /// Cancel an in-flight URB (USBIP_RET_UNLINK received).
    fn cancel_urb(&mut self, seqnum: u32, devid: u32) -> (r: Result<(), UsbIpError>)
        requires
            old(self).inv(),
        ensures
            final(self).inv(),
    ;

    /// Remove a virtual device by port number.
    fn remove_device(&mut self, port: u32) -> (r: Result<(), UsbIpError>)
        requires
            old(self).inv(),
        ensures
            final(self).inv(),
    ;
}

/// A URB completion as a backend received it:
/// `(seqnum, devid, status, actual_length, data)`.
pub type RecordedUrb = (u32, u32, i32, u32, Vec<u8>);

pub open spec fn urb_view(u: RecordedUrb) -> (u32, u32, i32, u32, Seq<u8>) {
    (u.0, u.1, u.2, u.3, u.4@)
}

/// A backend that creates devices on consecutive ports and records every
/// completed URB, for tests.
pub struct MockVhciBackend {
    devices: Vec<VhciDevice>,
    urbs: Vec<RecordedUrb>,
    next_port: u32,
}

impl MockVhciBackend {
    pub closed spec fn spec_devices(&self) -> Seq<VhciDevice> {
        self.devices@
    }

    pub closed spec fn spec_next_port(&self) -> u32 {
        self.next_port
    }

    /// The completed URBs, in completion order.
    pub closed spec fn spec_urbs(&self) -> Seq<(u32, u32, i32, u32, Seq<u8>)> {
        self.urbs@.map_values(|u: RecordedUrb| urb_view(u))
    }

    pub fn new() -> (m: Self)
        ensures
            m.inv(),
            m.spec_devices().len() == 0,
            m.spec_urbs().len() == 0,
            m.spec_next_port() == 0,
    {
        let m = MockVhciBackend { devices: Vec::new(), urbs: Vec::new(), next_port: 0 };
        assert(m.spec_urbs() =~= Seq::empty());
        m
    }

    /// Number of devices created so far.
    pub fn device_count(&self) -> (r: usize)
        ensures
            r == self.spec_devices().len(),
    {
        self.devices.len()
    }

    /// Copy of the `k`-th created device.
    pub fn device(&self, k: usize) -> (r: VhciDevice)
        requires
            k < self.spec_devices().len(),
        ensures
            r.port == self.spec_devices()[k as int].port,
            r.devid == self.spec_devices()[k as int].devid,
            r.vid == self.spec_devices()[k as int].vid,
            r.pid == self.spec_devices()[k as int].pid,
            r.busid@ == self.spec_devices()[k as int].busid@,
    {
        let d = &self.devices[k];
        VhciDevice { port: d.port, devid: d.devid, busid: d.busid.clone(), vid: d.vid, pid: d.pid }
    }

    /// Snapshot of the URBs recorded by `complete_urb`, in completion order.
    pub fn recorded_urbs(&self) -> (r: Vec<RecordedUrb>)
        ensures
            r@.map_values(|u: RecordedUrb| urb_view(u)) == self.spec_urbs(),
    {
        let mut out: Vec<RecordedUrb> = Vec::new();
        let mut i: usize = 0;
        while i < self.urbs.len()
            invariant
                i <= self.urbs@.len(),
                out@.len() == i,
                forall|j: int| 0 <= j < i ==> urb_view(#[trigger] out@[j]) == urb_view(self.urbs@[j]),
            decreases self.urbs.len() - i,
        {
            let u = &self.urbs[i];
            out.push((u.0, u.1, u.2, u.3, slice_to_vec(u.4.as_slice())));
            i = i + 1;
        }
        assert(out@.map_values(|u: RecordedUrb| urb_view(u)) =~= self.spec_urbs());
        out
    }
}

/// `x mod 2^32`.
pub open spec fn wrap32(x: int) -> int {
    x % 0x1_0000_0000
}

impl VhciBackend for MockVhciBackend {
    /// The `k`-th created device sits on port `k` (modulo 2^32), with the
    /// same device id, and the next port is the count of devices.
    closed spec fn inv(&self) -> bool {
        &&& self.next_port == wrap32(self.devices@.len() as int)
        &&& forall|k: int|
            0 <= k < self.devices@.len() ==> #[trigger] self.devices@[k].port == wrap32(k)
                && self.devices@[k].devid == self.devices@[k].port
    }

    fn create_device(&mut self, entry: &UsbIpDeviceEntry, descriptors: &[u8]) -> (r: Result<
        VhciDevice,
        UsbIpError,
    >)
        ensures
            r matches Ok(d) && d.port == old(self).spec_next_port(),
            final(self).spec_next_port() == old(self).spec_next_port().wrapping_add(1),
            final(self).spec_devices().len() == old(self).spec_devices().len() + 1,
            final(self).spec_urbs() == old(self).spec_urbs(),
    {
        let port = self.next_port;
        let device = VhciDevice {
            port,
            devid: port,
            busid: entry.busid_str(),
            vid: entry.vid(),
            pid: entry.pid(),
        };
        let copy = VhciDevice {
            port,
            devid: port,
            busid: device.busid.clone(),
            vid: device.vid,
            pid: device.pid,
        };
        proof {
            let n = self.devices@.len() as int;
            assert(wrap32(n + 1) == (if self.next_port == u32::MAX {
                0
            } else {
                self.next_port + 1
            })) by (nonlinear_arith)
                requires
                    self.next_port == n % 0x1_0000_0000,
                    n >= 0,
            ;
        }
        self.devices.push(copy);
        self.next_port = self.next_port.wrapping_add(1);
        Ok(device)
    }

    fn complete_urb(
        &mut self,
        seqnum: u32,
        devid: u32,
        status: i32,
        actual_length: u32,
        data: &[u8],
    ) -> (r: Result<(), UsbIpError>)
        ensures
            r is Ok,
            final(self).spec_urbs() == old(self).spec_urbs().push((seqnum, devid, status, actual_length, data@)),
            final(self).spec_devices() == old(self).spec_devices(),
            final(self).spec_next_port() == old(self).spec_next_port(),
    {
        self.urbs.push((seqnum, devid, status, actual_length, slice_to_vec(data)));
        proof {
            assert(self.spec_urbs() =~= old(self).spec_urbs().push(
                (seqnum, devid, status, actual_length, data@),
            ));
        }
        Ok(())
    }

    fn cancel_urb(&mut self, seqnum: u32, devid: u32) -> (r: Result<(), UsbIpError>)
        ensures
            r is Ok,
    {
        Ok(())
    }

    fn remove_device(&mut self, port: u32) -> (r: Result<(), UsbIpError>)
        ensures
            r is Ok,
    {
        Ok(())
    }
}

/// The recording backend hands out ports in order: the `k`-th device it
/// created sits on port `k` (modulo 2^32) with device id equal to its port.
pub proof fn law_mock_ports_sequential(m: MockVhciBackend, k: int)
    requires
        m.inv(),
        0 <= k < m.spec_devices().len(),
    ensures
        m.spec_devices()[k].port == wrap32(k),
        m.spec_devices()[k].devid == m.spec_devices()[k].port,
        m.spec_next_port() == wrap32(m.spec_devices().len() as int),
{
    assert(m.devices@[k].port == wrap32(k));
}

} // verus!
