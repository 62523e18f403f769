[package]
name = "rack_core"
version = "0.1.0"
edition = "2021"
publish = false

[dependencies]
chrono = "=0.4.45"
flate2 = "=1.1.10"
semver = "1"
uuid = { version = "=1.27.0", features = ["v4"] }

[dev-dependencies]
tar = "=0.4.46"
toml = "=0.7.8"
