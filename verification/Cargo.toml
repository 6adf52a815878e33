[package]
name = "imageboard"
version = "0.1.0"
edition = "2021"
publish = false

[dependencies]
axum = { version = "0.7", features = ["multipart"] }
axum-extra = { version = "0.9", features = ["multipart"] }
bincode = "1.3"
chrono = "0.4"
dotenvy = "0.15"
html-escape = "0.2"
image = { version = "0.25", default-features = false, features = ["jpeg", "png", "gif", "webp"] }
regex = "1"
serde = { version = "1", features = ["derive"] }
shakmaty = "0.27"
sled = "0.34"
sqlx = { version = "0.8", default-features = false, features = ["postgres", "runtime-tokio", "macros", "migrate"] }
tokio = { version = "1", features = ["full"] }
tower-http = { version = "0.5", features = ["fs"] }
url = "2"
uuid = { version = "1", features = ["v4"] }
