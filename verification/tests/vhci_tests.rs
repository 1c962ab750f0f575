use usb_passthrough::protocol::{UsbIpDeviceEntry, UsbIpError};
use usb_passthrough::vhci::{
    backend_available, build_windows_descriptor_block, detect_platform, Platform, VhciDriver, VhciProbe, VhciRequest,
};

fn entry(busid: &str, speed: u32) -> UsbIpDeviceEntry {
    let mut e = UsbIpDeviceEntry::zeroed();
    e.busid[..busid.len()].copy_from_slice(busid.as_bytes());
    e.speed = speed;
    e.id_vendor = 0x046d;
    e.id_product = 0xc261;
    e
}

fn linux() -> VhciDriver {
    VhciDriver::new(Platform::Linux, VhciProbe::Present { status_entries: Some(4) }).unwrap()
}

fn sysfs(req: VhciRequest) -> (String, Vec<u8>, bool) {
    match req {
        VhciRequest::SysfsWrite { file, contents, ignore_errors } => (file, contents, ignore_errors),
        _ => panic!("expected a sysfs write"),
    }
}

#[test]
fn driver_initialisation() {
    let d = linux();
    assert_eq!(d.num_ports(), 4);
    assert_eq!(d.sysfs_path().unwrap(), "/sys/devices/platform/vhci_hcd.0");
    let d = VhciDriver::new(Platform::Android, VhciProbe::Present { status_entries: None }).unwrap();
    assert_eq!(d.num_ports(), 8);
    let d = VhciDriver::new(Platform::Linux, VhciProbe::Missing { modprobe_started: true }).unwrap();
    assert_eq!(d.num_ports(), 8);
    match VhciDriver::new(Platform::Linux, VhciProbe::Missing { modprobe_started: false }) {
        Err(UsbIpError::NotSupported(m)) => assert!(m.contains("modprobe vhci-hcd")),
        _ => panic!("missing module must fail"),
    }
    let w = VhciDriver::new(Platform::Windows, VhciProbe::Missing { modprobe_started: false }).unwrap();
    assert_eq!(w.num_ports(), 127);
    assert!(w.sysfs_path().is_none());
    assert!(matches!(
        VhciDriver::new(Platform::Unsupported, VhciProbe::Present { status_entries: None }),
        Err(UsbIpError::NotSupported(_))
    ));
}

#[test]
fn free_port_from_status_text() {
    let d = linux();
    let status = "hub port sta spd dev\nPort 0 Attached\r\nPort 1 free\nPort 2 free\n";
    assert_eq!(d.find_free_port(status).unwrap(), 2);
    assert_eq!(d.find_free_port("Port 0 Attached\nPort 1 Attached").unwrap(), 0);
    assert_eq!(d.find_free_port("").unwrap(), 0);
    assert_eq!(d.find_free_port("Port x").unwrap(), 0);
    let w = VhciDriver::new(Platform::Windows, VhciProbe::Present { status_entries: None }).unwrap();
    assert_eq!(w.find_free_port("whatever").unwrap(), 0);
}

#[test]
fn linux_attach_write() {
    let d = linux();
    let (dev, req) = d.create_device(&entry("1-2", 3), &[1, 2, 3], "x\nPort 1 free\n").unwrap();
    assert_eq!(dev.port, 1);
    assert_eq!(dev.devid, 1);
    assert_eq!(dev.busid, "1-2");
    assert_eq!(dev.vid, 0x046d);
    let (file, contents, ignore) = sysfs(req);
    assert_eq!(file, "attach");
    assert_eq!(contents, b"1 1 3\n".to_vec());
    assert!(!ignore);
}

#[test]
fn windows_attach_input() {
    let w = VhciDriver::new(Platform::Windows, VhciProbe::Present { status_entries: None }).unwrap();
    let (dev, req) = w.create_device(&entry("2-1", 2), &[7, 8], "").unwrap();
    assert_eq!(dev.port, 0);
    match req {
        VhciRequest::WindowsAttach { input } => {
            assert_eq!(input, vec![0, 0, 0, 0, 0, 0, 0, 0, 2, 0, 0, 0, 2, 0, 0, 0, 7, 8]);
        },
        _ => panic!("expected the attach IOCTL"),
    }
    assert_eq!(build_windows_descriptor_block(&entry("2-1", 2), &[5; 3]), vec![3, 0, 0, 0, 5, 5, 5]);
}

#[test]
fn urb_completion_cancel_and_detach_writes() {
    let d = linux();
    let (file, contents, ignore) = sysfs(d.complete_urb(0x01020304, 3, -2, 2, &[0xaa, 0xbb]).unwrap());
    assert_eq!(file, "port3/urb_complete");
    assert_eq!(contents, vec![1, 2, 3, 4, 0xff, 0xff, 0xff, 0xfe, 0, 0, 0, 2, 0xaa, 0xbb]);
    assert!(!ignore);
    let (file, contents, ignore) = sysfs(d.cancel_urb(9, 12).unwrap());
    assert_eq!(file, "port12/urb_unlink");
    assert_eq!(contents, vec![0, 0, 0, 9]);
    assert!(ignore);
    let (file, contents, _) = sysfs(d.remove_device(5).unwrap());
    assert_eq!(file, "detach");
    assert_eq!(contents, b"5\n".to_vec());
    let w = VhciDriver::new(Platform::Windows, VhciProbe::Present { status_entries: None }).unwrap();
    assert!(matches!(w.complete_urb(1, 1, 0, 0, &[]).unwrap(), VhciRequest::Nothing));
    assert!(matches!(w.cancel_urb(1, 1).unwrap(), VhciRequest::Nothing));
    assert!(matches!(w.remove_device(1).unwrap(), VhciRequest::Nothing));
}

#[test]
fn platform_detection() {
    assert_eq!(detect_platform("linux"), Platform::Linux);
    assert_eq!(detect_platform("windows"), Platform::Windows);
    assert_eq!(detect_platform("android"), Platform::Android);
    assert_eq!(detect_platform("macos"), Platform::Unsupported);
}

#[test]
fn backend_only_on_linux_android_and_windows() {
    assert!(backend_available(Platform::Linux).is_ok());
    assert!(backend_available(Platform::Android).is_ok());
    assert!(backend_available(Platform::Windows).is_ok());
    match backend_available(Platform::Unsupported) {
        Err(UsbIpError::NotSupported(m)) => assert_eq!(m, "VHCI is only supported on Linux and Windows"),
        _ => panic!("an unsupported platform has no backend"),
    }
}

#[test]
fn created_device_busid_is_lossy_text_of_record() {
    let d = linux();
    let mut e = entry("", 2);
    e.busid[0] = 0xff;
    e.busid[1] = b'1';
    let (dev, _) = d.create_device(&e, &[], "Port 0 free\n").unwrap();
    assert_eq!(dev.busid, "\u{fffd}1");
}
