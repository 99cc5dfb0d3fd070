[package]
name = "bmw"
version = "0.1.0"
edition = "2021"
publish = false

[dependencies]
rand = "=0.8.8"
chrono = "=0.4.45"
subtle = "=2.6.1"
ed25519-dalek = "=1.0.1"
failure = "=0.1.8"
backtrace = "=0.3.77"
colored = "=2.2.0"
portpicker = "=0.1.1"
aes = { version = "=0.7.5", features = ["ctr"] }
cipher = "=0.3.0"
sha3 = "=0.10.9"
digest = "=0.10.7"
generic-array = "=0.14.7"
typenum = "=1.20.1"
arrayref = "=0.3.9"
bitvec = "1"
