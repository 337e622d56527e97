[package]
name = "kvm_device"
version = "0.1.0"
edition = "2021"
publish = false

[dependencies]
zerocopy = "0.8"
vmm-sys-util = "0.14"
serde = "1"

[dev-dependencies]
serde_json = "1"
bincode = { version = "2", features = ["serde"] }
libc = "0.2"
