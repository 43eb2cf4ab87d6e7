[package]
name = "pheromessage"
version = "0.1.0"
edition = "2021"
publish = false

[dependencies]
rand = "=0.8.8"
postcard = { version = "=1.1.3", features = ["alloc"] }
serde = { version = "=1.0.229", features = ["derive"] }

[dev-dependencies]
rayon = "=1.12.0"
