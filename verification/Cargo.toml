[package]
name = "minigis"
version = "0.1.0"
edition = "2021"
publish = false

[dependencies]
serde = { version = "=1.0.229", features = ["derive"] }
serde_json = "=1.0.151"
shapefile = { version = "=0.9.0", features = ["encoding_rs"] }
geojson = "=1.0.0"
encoding_rs = "=0.8.42"
thiserror = "=2.0.21"
chrono = "=0.4.45"
uuid = { version = "=1.27.0", features = ["v4"] }
lazy_static = "=1.5.1"
