[package]
name = "icmp_probe"
version = "0.1.0"
edition = "2021"
publish = false

[dependencies]
anyhow = "=1.0.104"
ctrlc = "=3.5.2"
env_logger = "=0.11.11"
humantime = "=2.4.0"
log = "=0.4.34"
socket2 = { version = "=0.6.5", features = ["all"] }
structopt = "=0.3.26"
tabular = "=0.2.0"
