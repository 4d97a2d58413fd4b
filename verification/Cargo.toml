[package]
name = "dropslim"
version = "0.1.0"
edition = "2021"
publish = false

[dependencies]
mp4parse = "=0.17.0"
image = { version = "=0.25.10", default-features = false, features = ["png", "jpeg", "gif", "webp"] }
png = "=0.18.1"
oxipng = { version = "=10.2.1", default-features = false }
imagequant = { version = "=4.4.1", default-features = false }
webp = "=0.3.1"
ravif = { version = "=0.13.0", default-features = false }
zenjpeg = "=0.8.4"
oxvg_ast = { version = "=0.0.9", features = ["roxmltree"] }
oxvg_optimiser = "=0.0.9"
walkdir = "=2.5.0"
serde = { version = "=1.0.229", features = ["derive"] }
serde_json = "=1.0.154"
clap = { version = "=4.6.7", features = ["derive"] }
tokio = { version = "=1.54.1", features = ["rt-multi-thread", "macros", "signal", "sync"] }
