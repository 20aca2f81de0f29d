[package]
name = "nano9"
version = "0.1.0"
edition = "2021"
publish = false

[dependencies]
bitvec = "1"
bresenham = "0.1"
dasp = { version = "0.11", features = ["signal"] }
pico8_decompress = "*"
pico8-to-lua = "*"
serde = { version = "1", features = ["derive"] }
toml = "0.8"
tiny-skia = "0.11"
thiserror = "*"
