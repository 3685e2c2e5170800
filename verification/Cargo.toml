[package]
name = "restic_viewer"
version = "0.1.0"
edition = "2021"
publish = false

[dependencies]
serde = { version = "1", features = ["derive"] }
serde_json = "1"
toml = "*"
thiserror = "*"
glib = "*"
gio = "*"
gtk4 = "*"
libadwaita = { version = "*", features = ["v1_5"] }
libsecret = "*"
