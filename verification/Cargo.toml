[package]
name = "workhelper"
version = "0.1.0"
edition = "2021"
publish = false

[dependencies]
base64 = "*"
encoding_rs = "*"
serde_json = "*"
serde = { version = "*", features = ["derive"] }
reqwest = { version = "*", default-features = false, features = ["json", "stream"] }
tokio = { version = "*", features = ["fs", "io-util", "macros", "rt", "sync", "time"] }
futures-util = "*"
dirs = "*"
dotenv = "*"
