[package]
name = "plotters"
version = "0.3.0"
edition = "2021"
publish = false

[dependencies]
base64 = "=0.13.1"
chrono = "=0.4.45"
image = { version = "=0.23.14", default-features = false, features = ["png"] }
num-traits = "=0.2.19"
plotters-backend = "=0.3.7"
plotters-bitmap = { version = "=0.3.7", default-features = false }
plotters-svg = "=0.3.7"
harfrust = "=0.3.2"
skrifa = "=0.49.0"
once_cell = "=1.21.4"
serde = { version = "=1.0.229", features = ["derive"] }
