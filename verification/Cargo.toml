[package]
name = "nanograph"
version = "0.1.0"
edition = "2021"
publish = false

[dependencies]
ahash = "=0.8.12"
ariadne = "=0.6.0"
arrow-array = "=60.1.0"
arrow-schema = "=60.1.0"
arrow-select = "=60.1.0"
arrow-cast = { version = "=60.1.0", features = ["prettyprint"] }
base64 = "=0.22.1"
clap = { version = "=4.6.7", features = ["derive"] }
color-eyre = "=0.6.5"
futures = "=0.3.34"
hf-hub = { version = "=0.5.0", default-features = false, features = ["ureq"] }
pest = "2"
serde = { version = "=1.0.229", features = ["derive"] }
serde_json = "=1.0.154"
sha2 = "=0.10.9"
tokenizers = { version = "=0.23.2", default-features = false, features = ["fancy-regex"] }
tokio = { version = "=1.54.1", features = ["rt-multi-thread", "macros"] }
tracing = "=0.1.44"
tracing-subscriber = { version = "=0.3.23", features = ["env-filter"] }
tract-onnx = "=0.23.9"
url = "=2.5.8"
