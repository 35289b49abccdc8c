[package]
name = "auction"
version = "0.1.0"
edition = "2021"
publish = false

[dependencies]
anchor-lang = { version = "=0.24.2", features = ["init-if-needed"] }
anchor-spl = "=0.24.2"
metaplex-token-metadata = "=0.0.1"
