[package]
name = "srp_auth"
version = "0.1.0"
edition = "2021"
publish = false

[dependencies]
argon2 = "=0.5.3"
base64 = "=0.22.1"
blake2 = "=0.10.6"
clap = { version = "=4.6.7", features = ["derive"] }
crypto-bigint = "=0.6.1"
digest = "=0.10.7"
js-sys = "=0.3.106"
rand = { version = "=0.8.8", features = ["min_const_gen"] }
rpassword = "=7.5.4"
serde = { version = "=1.0.229", features = ["derive"] }
subtle = "=2.6.1"
wasm-bindgen = "=0.2.129"
wee_alloc = "=0.4.5"
