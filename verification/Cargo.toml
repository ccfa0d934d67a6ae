[package]
name = "scp_label_maker"
version = "0.1.0"
edition = "2021"
publish = false

[dependencies]
anyhow = "=1.0.104"
atty = "=0.2.14"
chrono = "=0.4.45"
clap = { version = "=4.6.7", features = ["derive"] }
colored = "=2.2.0"
fern = { version = "=0.6.2", features = ["colored"] }
gif = "=0.13.3"
image = "=0.24.9"
imageproc = "=0.23.1"
log = "=0.4.34"
noise = "=0.9.0"
owned_ttf_parser = "=0.15.2"
rand = "=0.8.8"
rusttype = "=0.9.3"
serde = { version = "=1.0.229", features = ["derive"] }
serde_bytes = "=0.11.19"
serde_json = "=1.0.154"
thiserror = "=1.0.69"
zip = "=0.6.6"
