[package]
name = "black_jack_rust"
version = "0.1.0"
edition = "2021"
publish = false

[dependencies]
actix-web = "=3.3.2"
actix-rt = "=1.1.1"
askama = "=0.10.5"
thiserror = "=1.0.22"
r2d2 = "0.8"
r2d2_sqlite = "0.17"
rusqlite = { version = "0.24", features = ["bundled"] }
serde = { version = "1", features = ["derive"] }
