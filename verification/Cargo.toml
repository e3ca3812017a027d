[package]
name = "leads"
version = "0.0.1"
edition = "2021"
publish = false

[dependencies]
chrono = "=0.4.45"
clap = { version = "=4.6.7", features = ["derive"] }
colored = "=2.2.0"
image = { version = "=0.24.9", default-features = false, features = ["png", "jpeg"] }
indexmap = "=2.14.2"
indicatif = "=0.17.11"
pdfium-render = { version = "=0.8.37", default-features = false, features = ["pdfium_latest", "thread_safe", "image_024"] }
plotters = { version = "=0.3.7", default-features = false, features = ["bitmap_backend", "bitmap_encoder"] }
polars = { version = "=0.41.3", features = ["lazy", "parquet", "moment", "dtype-array", "random"] }
thiserror = "=1.0.69"
