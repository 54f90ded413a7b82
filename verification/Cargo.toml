[package]
name = "fractal_gtk"
version = "0.1.0"
edition = "2021"
publish = false

[dependencies]
failure = "=0.1.8"
gdk = "=0.13.2"
gio = "=0.9.1"
glib = "=0.10.3"
gtk = { version = "=0.9.2", features = ["v3_22"] }
serde = { version = "1", features = ["derive"] }
sourceview = "=0.9.0"
