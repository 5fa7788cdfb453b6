[package]
name = "monitor_input"
version = "0.1.0"
edition = "2021"
publish = false

[dependencies]
md5 = "0.7"
uuid = { version = "1", features = ["v4"] }
regex = "1"
chrono = "0.4"
json = "0.12"
mysql = "*"
sqlite = "*"
gtk4 = "*"
device_query = "*"
guid-create = "*"
