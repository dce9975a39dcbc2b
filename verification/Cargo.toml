[package]
name = "phantom"
version = "0.1.0"
edition = "2021"
publish = false

[dependencies]
petgraph = "0.6"
image = { version = "0.24", default-features = false, features = ["png", "jpeg", "hdr"] }
nalgebra = "0.31"
nalgebra-glm = "0.17"
serde = { version = "1", features = ["derive"] }
thiserror = "1"
anyhow = "1"
log = "0.4"
ash = "0.37"
