[package]
name = "image_viewer"
version = "0.1.0"
edition = "2021"
publish = false

[dependencies]
gtk = "0.9"
gdk = "0.13"
gdk-pixbuf = "0.9"
