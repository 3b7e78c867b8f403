[package]
name = "tt_server"
version = "0.1.0"
edition = "2021"
publish = false

[dependencies]
base64 = "0.22"
boring = "4"
bytes = "1"
http = "1"
lazy_static = "1"
libc = "0.2"
log = "0.4"
quiche = { version = "0.24", features = ["boringssl-boring-crate"] }
ring = "0.17"
serde = { version = "1", features = ["derive"] }
tokio = { version = "1", features = ["macros", "net", "rt", "sync", "time"] }
