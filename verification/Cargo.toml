[package]
name = "fsprompt"
version = "0.1.0"
edition = "2021"
publish = false

[dependencies]
glob = "=0.3.4"
regex = "1"
fuzzy-matcher = "=0.3.7"
serde = { version = "1", features = ["derive"] }
serde_json = "1"
dirs = "6"
crossbeam = "0.8"
rayon = "1"
ignore = "0.4"
memmap2 = "0.9"
num_cpus = "1"
libc = "0.2"
notify = "8"
arboard = { version = "3", default-features = false }
eframe = { version = "0.31", default-features = false, features = ["default_fonts", "glow", "x11"] }
tokio = { version = "1", default-features = false, features = ["rt"] }
