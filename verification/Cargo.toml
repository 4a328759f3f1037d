[package]
name = "serial_transport"
version = "0.1.0"
edition = "2021"
publish = false

[dependencies]
cortex-m = "0.7"
cortex-m-rt = "0.7"
critical-section = { version = "1", features = ["std"] }
panic-rtt-target = "*"
rtt-target = "*"
stm32f3xx-hal = { version = "*", features = ["stm32f303xc"] }
