[package]
name = "idps_node"
version = "0.1.0"
edition = "2021"
publish = false

[dependencies]
chrono = "0.4"
tokio = { version = "1", features = ["full"] }
tokio-postgres = { version = "0.7", features = ["with-chrono-0_4"] }
bb8 = "0.8"
bb8-postgres = "0.8"
postgres-types = { version = "0.2", features = ["with-chrono-0_4"] }
bytes = "1"
pnet = "0.35"
nix = { version = "0.29", features = ["socket", "net", "uio"] }
libc = "0.2"
log = "0.4"
env_logger = "0.11"
dotenv = "0.15"
thiserror = "2"
once_cell = "1"
lazy_static = "1"
async-trait = "0.1"
