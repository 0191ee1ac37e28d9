[package]
name = "servio"
version = "0.5.3"
edition = "2021"
publish = false

[dependencies]
anyhow = "1"
axum = "0.8"
clap = { version = "4", features = ["derive"] }
file-id = "0.2"
globset = "0.4"
http = "1"
notify-debouncer-full = "0.5"
open = "5"
tokio = { version = "1", features = ["full"] }
tower-http = { version = "0.6", features = ["fs", "compression-gzip", "compression-br", "set-header"] }
tower-livereload = "0.9"
