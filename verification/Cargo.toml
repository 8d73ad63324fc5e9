[package]
name = "ami"
version = "0.1.0"
edition = "2021"
publish = false

[dependencies]
local-ip-address = "0.6"
rand = "0.9"
serde = { version = "1", features = ["derive"] }
serde_json = "1"
toml = "*"
dirs = "*"
anyhow = "1"
log = "0.4"
fern = "*"
humantime = "2"
clap = { version = "4", features = ["derive"] }
libc = "0.2"
tokio = { version = "1", features = ["rt-multi-thread", "macros", "sync", "net", "time", "fs"] }
axum = { version = "*", features = ["ws"] }
tower-http = { version = "*", features = ["fs"] }
futures-util = { version = "0.3", features = ["sink"] }
url = "2"
lofty = "*"
image = { version = "*", default-features = false, features = ["jpeg", "png"] }
rodio = "*"
mpris-server = "*"
