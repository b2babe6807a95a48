[package]
name = "girlpound"
version = "0.1.0"
edition = "2021"
publish = false

[dependencies]
rand = "=0.8.8"
rand_distr = "=0.4.3"
regex = "=1.13.1"
chrono = "=0.4.45"
emojito = "=0.3.5"
humantime = "=2.4.0"
serde = { version = "=1.0.229", features = ["derive"] }
serde_json = "=1.0.154"
uwuify = { version = "*", default-features = false }
dotenv = "0.15"
