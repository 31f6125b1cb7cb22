[package]
name = "rog_core"
version = "0.1.0"
edition = "2021"
publish = false

[dependencies]
intel-pstate = "=0.2.3"
log = "=0.4.35"
rusb = "0.9"
