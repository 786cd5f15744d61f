[package]
name = "crypto_keystore"
version = "0.1.0"
edition = "2021"
publish = false

[dependencies]
hex = "0.4"
sha2 = "0.10"
rand = "0.8"
zeroize = "1"
openmls = "*"
log = { version = "0.4", features = ["kv"] }
serde = { version = "1", features = ["derive"] }
postcard = { version = "1", features = ["use-std"] }
thiserror = "1"
syn = { version = "2", features = ["full"] }
quote = "1"
proc-macro2 = "1"
derive_more = { version = "1", features = ["deref", "from", "constructor"] }
