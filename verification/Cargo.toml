[package]
name = "ty-lib"
version = "0.2.1"
edition = "2021"
publish = false

[dependencies]
urlencoding = "2"
validator = "*"
serde = { version = "1", features = ["derive"] }
serde_json = "1"
warp = "0.3"
tokio = { version = "1", features = ["macros", "rt-multi-thread"] }
sqlx = { version = "0.8", default-features = false, features = ["runtime-tokio", "postgres"] }
anyhow = "1"
comrak = { version = "*", default-features = false }
dotenv = "0.15"
http = "0.2"
clap = "2"
reqwest = { version = "0.12", default-features = false, features = ["blocking", "json", "rustls-tls"] }
openssl-probe = "0.1"
load-dotenv = "*"
lazy_static = "1"
wasm-bindgen = "0.2"
yew = "0.17"
