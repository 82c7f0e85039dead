[package]
name = "weft-core"
version = "0.1.0"
edition = "2021"
publish = false

[dependencies]
encoding_rs = "0.8"
fend-core = "1"
freedesktop-desktop-entry = "0.7"
keyvalues-parser = "0.2"
lnk = "*"
nucleo-matcher = "0.3"
serde = { version = "1", features = ["derive"] }
serde_json = "1"
shell-words = "1"
toml = "0.8"
