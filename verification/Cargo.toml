[package]
name = "openml"
version = "0.1.0"
edition = "2021"
publish = false

[dependencies]
app_dirs = "=1.2.1"
arff = "=0.3.0"
fs2 = "=0.4.3"
num-traits = "=0.2.19"
reqwest = { version = "=0.13.5", features = ["blocking"] }
serde = { version = "=1.0.229", features = ["derive"] }
serde_json = "=1.0.154"
