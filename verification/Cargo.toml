[package]
name = "glib"
version = "0.1.0"
edition = "2021"
publish = false

[dependencies]
byteorder = "1"
rand = "*"
serde = { version = "1", features = ["derive"] }
serde_derive = "1"
toml = "*"
