[package]
name = "sheila"
version = "0.1.0"
edition = "2021"
publish = false

[dependencies]
chrono = { version = "0.4", default-features = false, features = ["clock", "std"] }
html-escape = "0.2"
indexmap = "2"
mio = { version = "1", features = ["os-poll", "os-ext"] }
regex = "1"
serde = { version = "1", features = ["derive"] }
serde_json = "1"
similar = "2"
uuid = { version = "1", features = ["v4"] }
