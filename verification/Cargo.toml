[package]
name = "paper_plane"
version = "0.1.0"
edition = "2021"
publish = false

[dependencies]
async-channel = "*"
env-libvpx-sys = "*"
futures = "*"
gettext-rs = "*"
gtk4 = "*"
libadwaita = "*"
log = "*"
matroska-demuxer = "*"
tdlib = "*"
thiserror = "*"
