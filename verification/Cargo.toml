[package]
name = "number"
version = "0.1.0"
edition = "2021"
publish = false

[dependencies]
malachite-base = "*"
malachite-nz = "*"
malachite-q = "*"
parity-scale-codec = { version = "3", default-features = false, features = ["std"] }
serde = "1"
serde_json = "1"
borsh = { version = "1", default-features = false, features = ["std", "unstable__schema"] }
num-bigint = "0.4"
num-rational = "0.4"
num-traits = "0.2"
ruint = { version = "1", default-features = false, features = ["std"] }
schemars = "1"
