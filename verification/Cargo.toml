[package]
name = "imap-flow"
version = "0.1.0"
edition = "2021"
publish = false

[dependencies]
bytes = "=1.12.1"
imap-codec = { version = "=2.0.0-alpha.9", features = ["quirk_crlf_relaxed"] }
imap-types = { version = "=2.0.0-alpha.7", features = ["tag_generator"] }
# imap-codec uses items of nom that need its "alloc" feature, and does not ask for it.
nom = "=7.1.3"
thiserror = "=1.0.69"
tokio = { version = "=1.54.1", features = ["io-util", "macros", "net", "rt"] }
