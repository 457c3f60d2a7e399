[package]
name = "pocket-relay-client-shared"
version = "0.2.0"
edition = "2021"
publish = false

[dependencies]
blaze-ssl-async = "*"
bytes = "1"
futures = "0.3"
hyper = { version = "0.14", features = ["server", "http1", "tcp"] }
local-ip-address = "*"
log = "0.4"
parking_lot = "0.12"
pocket-relay-udp-tunnel = "*"
reqwest = { version = "0.11", features = ["json", "native-tls"] }
semver = { version = "1", features = ["serde"] }
serde = { version = "1", features = ["derive"] }
tdf = "*"
thiserror = "1"
tokio = { version = "1", features = ["net", "rt", "sync", "time", "io-util", "macros"] }
tokio-util = { version = "0.7", features = ["codec"] }
url = "2"
