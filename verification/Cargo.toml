[package]
name = "boox_note"
version = "0.1.0"
edition = "2021"
publish = false

[dependencies]
byteorder = "1"
chrono = { version = "0.4", default-features = false, features = ["std"] }
log = "0.4"
prost = "*"
raqote = { version = "*", default-features = false }
regex = "1"
serde = { version = "1", features = ["derive"] }
serde_json = "1"
thiserror = "*"
uuid = "1"
zip = { version = "*", default-features = false, features = ["deflate"] }
