[package]
name = "printer_scan"
version = "0.1.0"
edition = "2021"
publish = false

[dependencies]
clap = { version = "4", features = ["derive"] }
colored = "2"
futures = "0.3"
ipnet = "2"
snmp2 = "*"
tokio = { version = "1", features = ["full"] }
