[package]
name = "mitsuzo"
version = "0.1.0"
edition = "2021"
publish = false

[dependencies]
argon2 = "*"
orion = "*"
sha2 = "*"
getrandom = "*"
base64 = "*"
bitcode = "*"
serde = { version = "*", features = ["derive"] }
rand = "*"
sled = "*"
axum = "*"
tokio = { version = "*", features = ["full"] }
tower-http = { version = "*", features = ["cors", "fs"] }
futures = "*"
tracing = "*"
tracing-subscriber = { version = "*", features = ["env-filter"] }
eyre = "*"
clap = { version = "*", features = ["derive"] }
reqwest = { version = "*", default-features = false }
rpassword = "*"
zeroize = "*"
dirs = "*"
serde_yaml = "*"
