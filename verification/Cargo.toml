[package]
name = "chery_apk_install"
version = "1.3.0"
edition = "2021"
publish = false

[dependencies]
serde = { version = "1", features = ["derive"] }
tauri = { version = "2", default-features = false, features = ["wry"] }
tauri-plugin-dialog = "2"
thiserror = "2"
zip = { version = "2", default-features = false, features = ["deflate"] }
