[package]
name = "binarygcode"
version = "0.1.0"
edition = "2021"
publish = false

[dependencies]
base64 = "=0.23.1"
embedded-heatshrink = "=0.1.0"
embedded-io = { version = "=0.7.1", features = ["alloc"] }
meatpack = "=0.1.0"
miniz_oxide = "=0.9.1"
clap = { version = "=4.6.7", features = ["derive"] }
