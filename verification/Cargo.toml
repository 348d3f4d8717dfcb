[package]
name = "proxichat"
version = "0.1.0"
edition = "2021"
publish = false

[dependencies]
cpal = "=0.15.3"
log = "=0.4.34"
once_cell = "=1.21.4"
parking_lot = "=0.12.5"
rrplug = "=3.0.0"
thiserror = "=1.0.69"

[dev-dependencies]
bincode = "=1.3.3"
