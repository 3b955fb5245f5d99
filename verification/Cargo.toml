[package]
name = "wirefish"
version = "0.1.0"
edition = "2021"
publish = false

[dependencies]
chrono = "*"
pcap = "*"
crossbeam = "*"
ctrlc = "*"
reqwest = { version = "*", default-features = false, features = ["blocking", "json"] }
serde_json = "*"
