[package]
name = "game_of_life"
version = "0.1.0"
edition = "2021"
publish = false

[dependencies]
ndarray = "0.15"
crossbeam = "0.8"
rand = "0.8"
threadpool = "1.8"
csv = "1"
pbr = "*"
progress_bar = "*"
plotters = { version = "0.3", default-features = false, features = ["bitmap_backend", "bitmap_gif"] }
crossterm = "0.25"
tui = "0.19"
