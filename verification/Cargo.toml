[package]
name = "quicksearch"
version = "0.1.0"
edition = "2021"
publish = false

[dependencies]
anyhow = "1"
async-channel = "2"
clap = { version = "4", features = ["derive"] }
crossbeam-channel = "0.5"
gio = "0.18"
glib = "0.18"
glob = "0.3"
grep = "0.3"
gtk4 = { version = "0.7", features = ["v4_10"] }
ignore = "0.4"
libadwaita = "0.5"
regex = "1"
