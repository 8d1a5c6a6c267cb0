[package]
name = "toy_turn"
version = "0.1.0"
edition = "2021"
publish = false

[dependencies]
bytes = "=1.12.1"
hmac = "=0.12.1"
md5 = "0.7"
rand = "=0.8.8"
sha1 = "=0.10.7"
tokio = { version = "=1.53.2", features = ["net", "rt-multi-thread", "macros", "signal", "time"] }
