[package]
name = "agora_court"
version = "0.1.0"
edition = "2021"
publish = false

[dependencies]
anchor-lang = { version = "=0.27.0", features = ["init-if-needed"] }
anchor-spl = { version = "=0.27.0", default-features = false, features = ["mint", "token", "associated_token"] }
