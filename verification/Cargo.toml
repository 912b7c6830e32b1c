[package]
name = "test-better"
version = "0.1.0"
edition = "2021"
publish = false

[dependencies]
similar = "=2.7.0"
regex = "=1.13.1"
proptest = "=1.12.0"
quickcheck = "=1.1.0"
serde = { version = "=1.0.229", features = ["derive"] }
serde_json = "=1.0.154"
syn = { version = "=2.0.119", features = ["full", "visit", "parsing"] }
proc-macro2 = { version = "=1.0.107", features = ["span-locations"] }
quote = "=1.0.47"
tokio = { version = "=1.54.1", features = ["time", "rt"] }
