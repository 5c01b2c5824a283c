[package]
name = "plover_evdevd"
version = "0.1.0"
edition = "2021"
publish = false

[dependencies]
evdev-sys = "*"
glob = "*"
