[package]
name = "cockpit_pacman_backend"
version = "0.1.0"
edition = "2021"
publish = false

[dependencies]
alpm = "*"
alpm-utils = "*"
anyhow = "1"
chrono = "0.4"
ctrlc = "3"
fs2 = "0.4"
pacman-key = "*"
pacmanconf = "*"
rss = "2"
serde = { version = "1", features = ["derive"] }
serde_json = "1"
tokio = { version = "1", features = ["rt-multi-thread", "time"] }
ureq = "3"
