[package]
name = "passgen"
version = "0.1.0"
edition = "2021"
publish = false

[dependencies]
rusqlite = { version = "=0.40.2", features = ["bundled", "fallible_uint"] }
rand = "=0.8.8"
random_word = { version = "=0.4.3", features = ["en"] }
dotenv = "=0.15.0"
