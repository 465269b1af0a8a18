[package]
name = "mngr"
version = "0.1.0"
edition = "2021"
publish = false

[dependencies]
chrono = "*"
dotenv = "*"
log = "*"
pretty_env_logger = "*"
rusqlite = { version = "*", features = ["bundled"] }
structopt = "*"
sysinfo = "*"
uuid = { version = "*", features = ["v4"] }
