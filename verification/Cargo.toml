[package]
name = "ere"
version = "0.1.0"
edition = "2021"
publish = false

[dependencies]
elf = "0.7"
sha2 = "0.10"
hex = "0.4"
serde = { version = "1", features = ["derive"] }
serde_json = "1"
bincode = { version = "2", features = ["serde"] }
thiserror = "2"
anyhow = "1"
libc = "0.2"
memmap2 = "0.9"
crossbeam-channel = "0.5"
once_cell = "1"
strum = { version = "0.27", features = ["derive"] }
tokio = { version = "1", features = ["time", "rt", "macros", "sync"] }
reqwest = { version = "0.12", default-features = false, features = ["json", "multipart", "stream"] }
reqwest-eventsource = "0.6"
futures-util = "0.3"
uuid = { version = "1", features = ["v4"] }
tracing = "0.1"
metrics = "*"
metrics-exporter-prometheus = { version = "*", default-features = false }
twirp = "*"
sysinfo = "*"
