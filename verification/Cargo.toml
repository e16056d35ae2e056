[package]
name = "ryu_shell"
version = "0.1.0"
edition = "2021"
publish = false

[dependencies]
cortex-m-rt = "=0.7.7"
embedded-alloc = "=0.6.0"
panic-halt = "=0.2.0"
rp2040-boot2 = "=0.3.0"
rp2040-hal = { version = "=0.10.2", features = ["rt", "critical-section-impl"] }
usb-device = "=0.3.2"
usbd-serial = "=0.2.2"
