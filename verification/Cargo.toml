[package]
name = "vnq_server"
version = "0.1.0"
edition = "2021"
publish = false

[dependencies]
ring = "=0.17.14"
jsonwebtoken = "=9.3.1"
serde_json = "=1.0.151"
chrono = "=0.4.45"
data-encoding = "=2.11.1"
dotenv = "=0.15.0"
