[package]
name = "gleem_crossfade"
version = "0.8.0"
edition = "2021"
publish = false

[dependencies]
alsa = "*"
gtk4 = "*"
libadwaita = "*"
libc = "*"
libpulse-binding = "*"
libpulse-glib-binding = "*"
serde = { version = "1", features = ["derive"] }
serde_json = "1"
