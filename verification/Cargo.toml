[package]
name = "test_window"
version = "0.1.0"
edition = "2021"
publish = false

[dependencies]
anyhow = "1"
parking_lot = "0.12"
raw-window-handle = "0.6"
