[package]
name = "ya-world-time"
version = "0.1.0"
edition = "2021"
publish = false

[dependencies]
chrono = "0.4"
dns-lookup = "2"
env_logger = "0.10"
libc = "0.2"
log = "0.4"
sntpc = "0.3"
tokio = { version = "1", features = ["macros", "rt"] }
winapi = { version = "0.3", features = ["minwinbase", "minwindef", "sysinfoapi"] }
