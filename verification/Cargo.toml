[package]
name = "bs_filter"
version = "0.1.0"
edition = "2021"
publish = false

[dependencies]
boolean_expression = "0.4"
byteorder = "1"
libc = "0.2"
eui48 = { version = "1", default-features = false }
thiserror = "1"
bytes = "1"
nix = { version = "0.27", features = ["net"] }
socket2 = { version = "0.5", features = ["all"] }
tokio = { version = "1", features = ["net", "rt", "macros"] }
