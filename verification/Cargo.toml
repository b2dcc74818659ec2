[package]
name = "icalendar"
version = "0.1.0"
edition = "2021"
publish = false

[dependencies]
chrono = "0.4"
chrono-tz = "0.8"
iso8601 = "0.6"
uuid = { version = "1", features = ["v4"] }
serde = { version = "1", features = ["derive"] }
