[package]
name = "omaview"
version = "0.1.0"
edition = "2021"
publish = false

[dependencies]
gtk4 = { version = "*", features = ["v4_12"] }
gdk4 = "*"
glib = "*"
gio = "*"
cairo-rs = "*"
libadwaita = { version = "*", features = ["v1_5"] }
image = { version = "0.25", default-features = false, features = ["png", "jpeg", "webp", "gif", "bmp", "tiff", "ico"] }
serde = { version = "1", features = ["derive"] }
toml = "*"
notify = "*"
kamadak-exif = "*"
