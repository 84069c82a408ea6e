[package]
name = "smplfetch"
version = "0.1.0"
edition = "2021"
publish = false

[dependencies]
chrono = "=0.4.45"
whoami = "=1.6.1"
sysinfo = "=0.39.6"
termcolor = "=1.4.1"

[dev-dependencies]
serde_json = "=1.0.151"
