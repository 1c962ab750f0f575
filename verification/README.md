# usb_passthrough

A USB/IP bridge: a server exports the USB devices plugged into it over TCP
(port 3240), a client attaches them to a virtual host controller so that
the local OS sees them as real hardware, and servers advertise themselves
over mDNS (`_usbip._tcp.local`).

The library under `src/` is verified with Verus. It holds everything the
bridge decides or computes:

| module          | contents |
|-----------------|----------|
| `wire`          | big/little-endian integers, decimal and hex text, `u8` parsing, byte search |
| `protocol`      | operation header, exported device record, URB submit and reply, errors |
| `table`         | a table keyed by bus id, each bus id at most once |
| `usb`           | export records from enumeration, bus id parsing and lookup, the allowlist, descriptor trees, the claimed-device table, the transfer a URB becomes |
| `server`        | configuration, request classification, device list reply, import handshake with its one-client-per-device export table, the URB forwarding loop |
| `vhci`          | the virtual host controller driver: ports, and the exact sysfs writes or IOCTL input for attach, URB completion, cancel and detach |
| `vhci_backend`  | the backend trait, the virtual device handle, a recording backend for tests |
| `discovery`     | the `devices` TXT value, the mDNS service record, the browse collector |

`app/` is the host side: sockets (tokio), libusb (rusb), the mDNS daemon
(mdns-sd), the host name, sysfs and the Windows VHCI IOCTL. It performs the
I/O and hands plain values to the library.

Both tables keyed by bus id (the export table and the claimed-device table)
are `BusidTable`, a vector of rows whose invariant is that no bus id occurs
twice, viewed as a map from bus id bytes to values. A `HashMap` keyed by
`String` would compile, but the specifications Verus gives std's hash maps
speak of keys only through their hashing and equality; with a string key
not even that an insert adds one entry can be shown. The vector makes every
lookup, insert and remove provable against the map view.

The descriptor tree sent on import is the device descriptor followed by
each configuration descriptor set exactly as the device returns it to a
GET_DESCRIPTOR request, so class-specific descriptors (HID, CDC, audio, ...)
pass through unchanged.
