[package]
name = "replication_game"
version = "0.1.0"
edition = "2021"
publish = false

[dependencies]
blake2 = "=0.8.1"
byteorder = "=1.5.0"
clap = "=2.34.0"
diesel = { version = "=2.3.14", features = ["postgres"] }
filecoin-hashers = { version = "=1.1.0", default-features = false, features = ["pairing", "blake2s", "poseidon", "sha256"] }
flate2 = "=1.1.10"
hex = "=0.4.3"
memmap = "=0.7.0"
merkletree = "=0.21.0"
rand = "=0.8.8"
reqwest = { version = "=0.12.28", default-features = false, features = ["blocking", "json"] }
rocket = { version = "=0.5.2", features = ["json"] }
serde = { version = "=1.0.229", features = ["derive"] }
serde_json = "=1.0.154"
storage-proofs = { version = "=6.0.0", default-features = false, features = ["pairing"] }
tempfile = "=3.27.0"
