[package]
name = "hd_fpv_osd_font_tool"
version = "0.1.0"
edition = "2021"
publish = false

[dependencies]
image = { version = "0.24", default-features = false, features = ["png"] }
parse_int = "0.6"
serde_yaml = "0.9"
clap = { version = "4", features = ["derive"] }
anyhow = "1"
log = "0.4"
env_logger = "0.10"
fs-err = "2"
thiserror = "1"
