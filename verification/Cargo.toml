[package]
name = "weather_station"
version = "0.1.0"
edition = "2021"
publish = false

[dependencies]
serde_json = { version = "*", features = ["arbitrary_precision"] }
reqwest = { version = "*", default-features = false, features = ["blocking"] }
colored = "*"
dotenv = "*"
