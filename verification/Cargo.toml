[package]
name = "amrust_3mf"
version = "0.1.0"
edition = "2021"
publish = false

[dependencies]
image = { version = "*", default-features = false, features = ["png", "jpeg"] }
zip = { version = "*", default-features = false, features = ["deflate"] }
instant-xml = "*"
serde = { version = "1", features = ["derive"] }
serde-roxmltree = "*"
thiserror = "*"
once_cell = "*"
