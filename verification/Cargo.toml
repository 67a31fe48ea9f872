[package]
name = "crate_registry"
version = "0.1.0"
edition = "2021"
publish = false

[dependencies]
conduit = "0.8"
conduit-router = "0.8"
license-exprs = "1"
rustc-serialize = "0.3"
semver = "0.5"
time = "0.1"
url = "1"
