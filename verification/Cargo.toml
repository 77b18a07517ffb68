[package]
name = "smooth_gpx"
version = "0.1.0"
edition = "2021"
publish = false

[dependencies]
chrono = { version = "0.4", features = ["serde"] }
clap = { version = "4", features = ["derive"] }
geo = "0.28"
quick-xml = { version = "0.31", features = ["serialize"] }
reqwest = { version = "0.11", default-features = false, features = ["json"] }
serde = { version = "1", features = ["derive"] }
serde_derive = "1"
serde_json = "1"
