[package]
name = "authifier"
version = "0.1.0"
edition = "2021"
publish = false

[dependencies]
base64 = "0.22"
form_urlencoded = "1"
jsonwebtoken = { version = "9", default-features = false }
oauth2-types = "*"
rand = "0.8"
reqwest = { version = "0.12", default-features = false, features = ["blocking", "json"] }
serde = { version = "1", features = ["derive"] }
serde_json = "1"
sha2 = "0.10"
url = "2"
