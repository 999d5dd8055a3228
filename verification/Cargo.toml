[package]
name = "h757_dual"
version = "0.1.0"
edition = "2021"
publish = false

[dependencies]
stm32h7 = { version = "=0.16.0", default-features = false, features = ["stm32h757cm4"] }
cortex-m = "=0.7.10"
rtt-target = "=0.6.2"
