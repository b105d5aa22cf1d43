[package]
name = "dp_client"
version = "0.1.0"
edition = "2021"
publish = false

[dependencies]
curve25519-dalek = { version = "4", features = ["rand_core"] }
num-bigint = "0.4"
coinflip = "*"
rand = "0.8"
rand_core = { version = "0.6", features = ["getrandom"] }
sha2 = "0.10"
actix-web = "4"
serde = { version = "1", features = ["derive"] }
uuid = { version = "1", features = ["v4"] }
