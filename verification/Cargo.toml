[package]
name = "fnirsi_usbtester_flasher"
version = "0.1.0"
edition = "2021"
publish = false

[dependencies]
anyhow = "=1.0.104"
clap = { version = "=4.6.7", features = ["derive"] }
console = "=0.15.11"
dialoguer = "=0.11.0"
hidapi = { version = "=2.6.7", default-features = false, features = ["linux-native-basic-udev"] }
indicatif = "=0.17.11"
rusb = "=0.9.4"
