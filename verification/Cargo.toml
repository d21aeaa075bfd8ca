[package]
name = "tarp_area"
version = "0.1.0"
edition = "2021"
publish = false

[dependencies]
image = { version = "0.24", default-features = false, features = ["jpeg", "png"] }
linfa = "0.7"
linfa-clustering = "0.7"
ndarray = "0.15"
