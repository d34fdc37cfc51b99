[package]
name = "libcrun-shim"
version = "0.1.0"
edition = "2021"
publish = false

[dependencies]
serde = { version = "1", features = ["derive"] }
serde_json = "1"
bincode = "1"
sha2 = "0.10"
colored = "2"
clap = { version = "4", features = ["derive"] }
ctrlc = "3"
dirs = "5"
env_logger = "0.11"
log = "0.4"
flate2 = "1"
futures-util = "0.3"
libc = "0.2"
reqwest = { version = "0.12", default-features = false, features = ["json", "stream"] }
tabled = "0.15"
tar = "0.4"
tokio = { version = "1", features = ["rt-multi-thread", "macros", "sync", "time"] }
