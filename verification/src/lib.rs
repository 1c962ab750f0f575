//! A USB/IP bridge: the protocol encoding, the server's device and export
//! bookkeeping, the URB forwarding decisions, the mDNS advertisement payload
//! and the client's virtual host controller requests, each with a contract.
pub mod wire;
pub mod protocol;
pub mod table;
pub mod usb;
pub mod server;
pub mod vhci_backend;
pub mod vhci;
pub mod discovery;
