[package]
name = "pi_base"
version = "0.1.0"
edition = "2021"
publish = false

[dependencies]
npnc = "*"
futures = "0.1"
