use usb_passthrough::protocol::{UsbIpDeviceEntry, UsbIpError};
use usb_passthrough::vhci_backend::{VhciBackend, VhciDevice};

/// A backend written outside the library.
struct DummyVhci;

impl VhciBackend for DummyVhci {
    fn create_device(
        &mut self,
        _entry: &UsbIpDeviceEntry,
        _descriptors: &[u8],
    ) -> Result<VhciDevice, UsbIpError> {
        Err(UsbIpError::NotSupported("dummy".into()))
    }

    fn complete_urb(
        &mut self,
        _seqnum: u32,
        _devid: u32,
        _status: i32,
        _actual_length: u32,
        _data: &[u8],
    ) -> Result<(), UsbIpError> {
        Ok(())
    }

    fn cancel_urb(&mut self, _seqnum: u32, _devid: u32) -> Result<(), UsbIpError> {
        Ok(())
    }

    fn remove_device(&mut self, _port: u32) -> Result<(), UsbIpError> {
        Ok(())
    }
}

fn drive(backend: &mut dyn VhciBackend) -> bool {
    backend.create_device(&UsbIpDeviceEntry::zeroed(), &[]).is_err()
        && backend.complete_urb(1, 0, 0, 0, &[]).is_ok()
}

#[test]
fn vhci_backend_is_implementable_outside() {
    let mut backend = DummyVhci;
    assert!(drive(&mut backend));
}
