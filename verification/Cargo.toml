[package]
name = "sjnmusic"
version = "0.1.0"
edition = "2021"
publish = false

[dependencies]
base64 = "0.22"
dirs = "5"
eframe = { version = "0.32", default-features = false, features = ["default_fonts", "glow", "x11"] }
egui = { version = "0.32", default-features = false }
env_logger = { version = "0.11", default-features = false }
image = { version = "0.25", default-features = false, features = ["png", "jpeg", "webp"] }
log = "0.4"
percent-encoding = "2"
rand = "0.8"
rusqlite = { version = "0.31", features = ["bundled"] }
serde = { version = "1", features = ["derive"] }
serde_json = "1"
strsim = "0.11"
tiny_http = "0.12"
tokio = { version = "1", features = ["rt", "time"] }
toml = "0.8"
ureq = { version = "2.12", default-features = false, features = ["json"] }
urlencoding = "2"
zbus = { version = "4", default-features = false, features = ["tokio"] }
zbus_macros = "4"
