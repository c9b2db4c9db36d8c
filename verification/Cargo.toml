[package]
name = "cryptoexchange"
version = "0.1.0"
edition = "2021"
publish = false

[dependencies]
byteorder = "1"
ed25519-dalek = { version = "2", features = ["rand_core"] }
hex = "0.4"
rand = "0.8"
sha2 = "0.10"
serde = { version = "1", features = ["derive"] }
serde_json = "1"
log = "0.4"
dotenv = "0.15"
iron = "0.6"
router = "0.6"
bodyparser = "0.8"
