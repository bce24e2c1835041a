[package]
name = "novashell_lib"
version = "0.1.0"
edition = "2021"
publish = false

[dependencies]
indexmap = "2"
regex = "1"
quick-xml = "0.31"
dirs = "5"
chrono = "0.4"
serde = { version = "1", features = ["derive"] }
serde_json = "1"
serde_yaml = "0.9"
clap = { version = "4", features = ["derive", "env"] }
thiserror = "1"
anyhow = "1"
tracing = "0.1"
tracing-subscriber = { version = "0.3", features = ["env-filter"] }
crossbeam-channel = "0.5"
parking_lot = "0.12"
once_cell = "1"
notify = "6"
tokio = { version = "1", features = ["rt", "net", "io-util", "time"] }
libc = "0.2"
libloading = "0.8"
sysinfo = "0.30"
zbus = "4"
gtk4 = "0.8"
gdk4 = "0.8"
glib = "0.19"
gio = "0.19"
pango = "0.19"
cairo-rs = "0.19"
gtk4-layer-shell = "0.3"
