[package]
name = "vexide"
version = "0.1.0"
edition = "2021"
publish = false

[dependencies]
bitflags = "*"
no_std_io = "*"
snafu = "*"
uom = { version = "*", default-features = false, features = ["f64", "si", "std"] }
vex-sdk = "*"
