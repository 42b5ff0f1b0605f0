[package]
name = "camera_merger"
version = "0.1.0"
edition = "2021"
publish = false

[dependencies]
anyhow = "=1.0.104"
config = { version = "=0.14.1", default-features = false, features = ["toml"] }
crossbeam = "=0.8.5"
crossbeam-skiplist = "=0.1.3"
kstring = "=2.0.0"
once_cell = "=1.21.4"
onnxruntime = "=0.0.14"
opencv = "=0.94.4"
plotters = { version = "=0.3.7", default-features = false, features = ["bitmap_backend", "bitmap_encoder", "histogram"] }
rayon = "=1.12.0"
serde = { version = "=1.0.229", features = ["derive"] }
serde_yaml = "=0.9.34"
tract-onnx = "=0.21.19"
