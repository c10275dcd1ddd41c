[package]
name = "zaffre"
version = "0.1.0"
edition = "2021"
publish = false

[dependencies]
anchor-lang = { version = "=0.31.2", features = ["init-if-needed"] }
ark-bn254 = "=0.4.0"
ark-ff = "=0.4.2"
borsh = { version = "=1.8.1", features = ["derive"] }
getrandom = "=0.2.17"
hex = "=0.4.3"
js-sys = "=0.3.106"
light-poseidon = "=0.2.0"
num-bigint = "=0.4.8"
serde = { version = "=1.0.229", features = ["derive"] }
sha2 = "=0.10.9"
solana-bn254 = "=2.2.2"
solana-program = "=2.3.0"
thiserror = "=1.0.69"
toml = "=0.8.23"
wasm-bindgen = "=0.2.129"
zeroize = { version = "=1.9.1", features = ["derive"] }

[dev-dependencies]
ark-ec = "=0.4.2"
ark-std = "=0.4.0"
