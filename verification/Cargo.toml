[package]
name = "nordlayer_kde"
version = "0.1.0"
edition = "2021"
publish = false

[dependencies]
ksni = "0.2"
notify-rust = "4"
