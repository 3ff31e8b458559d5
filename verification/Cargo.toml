[package]
name = "rus"
version = "0.1.0"
edition = "2021"
publish = false

[dependencies]
actix-web = { version = "4", default-features = false, features = ["macros", "cookies"] }
actix-web-httpauth = "0.8"
base64 = "0.22"
bcrypt = "0.15"
chrono = { version = "0.4", default-features = false, features = ["clock", "std"] }
dotenvy = "0.15"
image = { version = "0.25", default-features = false, features = ["png"] }
jsonwebtoken = { version = "9", default-features = false }
qrcode = "0.14"
rand = "0.8"
rusqlite = { version = "0.32", features = ["bundled"] }
serde = { version = "1", features = ["derive"] }
serde_json = { version = "1", features = ["preserve_order"] }
url = "2"
