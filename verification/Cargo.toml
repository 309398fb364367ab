[package]
name = "conda_dist"
version = "0.1.0"
edition = "2021"
publish = false

[dependencies]
anyhow = "*"
clap = { version = "*", features = ["derive"] }
flate2 = "*"
libc = "*"
rattler_conda_types = "*"
rattler_digest = "*"
rattler_lock = "*"
rattler_solve = { version = "*", features = ["resolvo"] }
serde = { version = "*", features = ["derive"] }
serde_json = "*"
tar = "*"
tempfile = "*"
tokio = { version = "*", features = ["rt-multi-thread", "macros", "fs", "process"] }
toml = "*"
url = "*"
