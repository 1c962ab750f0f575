[package]
name = "usb_passthrough"
version = "0.1.0"
edition = "2021"
publish = false

[dependencies]
tokio = { version = "1", features = ["net", "io-util", "sync", "rt-multi-thread", "macros", "time"] }
rusb = { version = "0.9", features = ["vendored"] }
mdns-sd = "*"
gethostname = "*"
tracing = "0.1"
winapi = { version = "0.3", features = ["fileapi", "handleapi", "ioapiset", "winnt", "winbase"] }
