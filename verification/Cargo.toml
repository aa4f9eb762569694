[package]
name = "usb_uart_bridge"
version = "0.1.0"
edition = "2021"
publish = false

[dependencies]
embassy-sync = "=0.8.0"
embassy-usb = "=0.6.0"
embassy-rp = "=0.10.0"
embassy-executor = "=0.10.0"
embassy-time = "=0.5.1"
embassy-futures = "=0.1.2"
embedded-io-async = "=0.7.0"
cortex-m = "=0.7.10"
defmt = "=1.2.0"
defmt-rtt = "=1.3.1"
panic-probe = "=1.0.0"
fixed = "=1.31.0"
libm = "=0.2.16"
static_cell = "=2.1.1"

[dev-dependencies]
critical-section = { version = "=1.2.0", features = ["std"] }
