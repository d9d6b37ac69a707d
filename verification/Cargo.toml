[package]
name = "rp-picow-examples"
version = "0.1.0"
edition = "2021"
publish = false

[dependencies]
cyw43 = "=0.3.0"
cyw43-pio = "=0.3.0"
defmt = "=0.3.101"
embassy-executor = "=0.7.0"
embassy-net = { version = "=0.6.0", features = ["udp", "dhcpv4", "proto-ipv4", "medium-ethernet"] }
embassy-rp = { version = "=0.3.1", features = ["rp2040", "time-driver", "critical-section-impl"] }
embassy-time = "=0.4.0"
embassy-usb-logger = "=0.4.0"
heapless = "=0.8.0"
log = "=0.4.35"
panic-halt = "=1.0.0"
rand = { version = "=0.8.8", default-features = false }
static_cell = "=2.1.1"
