[package]
name = "count_dir"
version = "0.1.0"
edition = "2021"
publish = false

[dependencies]
chrono = "*"
rand = "0.8"
parking_lot = "*"
parking_lot_core = "*"
crossbeam = "*"
