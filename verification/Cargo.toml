[package]
name = "ntpuvpn_rs"
version = "0.1.0"
edition = "2021"
publish = false

[dependencies]
dirs = "*"
keyring = "*"
net-route = "*"
network-interface = "*"
pnet = "*"
rpassword = "*"
serde = { version = "1", features = ["derive"] }
serde_json = "1"
tokio = { version = "1", features = ["full"] }
