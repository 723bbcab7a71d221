[package]
name = "provisioning"
version = "0.1.0"
edition = "2021"
publish = false

[dependencies]
axum = "=0.8.9"
bcrypt = "=0.19.3"
config = "=0.15.27"
dotenvy = "=0.15.7"
futures = "=0.3.34"
getrandom = "=0.4.3"
hyper = "=1.12.0"
paho-mqtt = { version = "=0.14.0", default-features = false, features = ["bundled"] }
rumqttd = "=0.20.0"
rusqlite = { version = "=0.40.2", features = ["bundled"] }
serde = { version = "=1.0.229", features = ["derive"] }
uuid = { version = "=1.29.0", features = ["v4"] }
