[package]
name = "vill_enforcer"
version = "0.1.0"
edition = "2021"
publish = false

[dependencies]
find-subimage = { version = "=0.1.12", default-features = false }
image = { version = "=0.25.10", default-features = false, features = ["png"] }
imageproc = "=0.27.0"
parking_lot = "=0.12.5"
serde = { version = "=1.0.229", features = ["derive"] }
serde_json = "=1.0.151"
directories = "=6.0.0"
tinyaudio = "=2.0.0"
