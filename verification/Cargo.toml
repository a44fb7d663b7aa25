[package]
name = "riv"
version = "0.1.0"
edition = "2021"
publish = false

[dependencies]
lru = "0.12"
image = { version = "0.25", default-features = false, features = ["png", "jpeg", "gif", "webp", "bmp", "tiff"] }
zip = { version = "2", default-features = false, features = ["deflate"] }
kamadak-exif = "0.5"
png = "0.17"
toml = "0.8"
serde = { version = "1", features = ["derive"] }
directories = "6"
crossbeam-channel = "0.5"
trash = "5"
arboard = { version = "3", default-features = false }
clap = { version = "4", features = ["derive"] }
egui = "0.32"
eframe = { version = "0.32", default-features = false, features = ["wgpu", "default_fonts", "x11"] }
resvg = { version = "0.44", default-features = false, features = ["text", "system-fonts", "raster-images"] }
turbojpeg = "1"
