[package]
name = "archway"
version = "0.1.0"
edition = "2021"
publish = false

[dependencies]
serde = { version = "*", features = ["derive"] }
serde_json = "*"
sha2 = "*"
uuid = { version = "*", features = ["v4"] }
time = { version = "*", features = ["formatting", "parsing", "local-offset"] }
dirs = "*"
sysinfo = "*"
