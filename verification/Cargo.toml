[package]
name = "imgfind"
version = "0.1.0"
edition = "2021"
publish = false

[dependencies]
anyhow = "1"
argon2 = "0.5"
axum = { version = "*", default-features = false, features = ["http1", "json", "query", "tokio"] }
base64 = "0.22"
clap = { version = "4", default-features = false, features = ["derive", "std", "help", "usage", "error-context"] }
crossterm = "*"
dirs = "*"
hashbrown = "*"
image = { version = "0.25", default-features = false, features = ["jpeg", "png", "gif", "bmp", "tiff", "webp"] }
kamadak-exif = "*"
md5 = "*"
mime_guess = "2"
oshash = "*"
ratatui = { version = "*", default-features = false, features = ["crossterm"] }
rayon = "1"
regex = "1"
rusqlite = { version = "*", features = ["bundled"] }
serde = { version = "1", features = ["derive"] }
serde_json = "1"
tokio = { version = "1", default-features = false, features = ["rt-multi-thread", "net", "io-util", "sync", "time", "macros"] }
toml = "0.8"
tracing = "0.1"
tui-input = { version = "*", default-features = false, features = ["crossterm"] }
turso = { version = "*", default-features = false }
walkdir = "2"
