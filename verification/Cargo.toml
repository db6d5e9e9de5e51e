[package]
name = "translucence"
version = "0.1.0"
edition = "2021"
publish = false

[dependencies]
time = "=0.3.55"
serde = { version = "*", features = ["derive"] }
serde_json = "*"
log = "*"
env_logger = "*"
docopt = "=1.1.1"
iron = "=0.6.1"
router = "=0.6.0"
chan = "=0.1.23"
chan-signal = "*"
