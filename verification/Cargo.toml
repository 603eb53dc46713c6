[package]
name = "physure"
version = "0.1.0"
edition = "2021"
publish = false

[dependencies]
num-rational = "=0.4.2"
num-traits = "=0.2.19"
semver = "=1.0.28"
serde = { version = "=1.0.229", features = ["derive"] }
serde_json = "=1.0.154"
chrono = "=0.4.45"
tiny_http = "=0.12.0"
open = "=5.4.5"
ndarray = "=0.16.1"
rand = "=0.8.8"
rand_distr = "=0.4.3"
sprs = "=0.11.6"
dyn-clone = "=1.0.20"
dirs = "=5.0.1"
ratatui = "0.29"
crossterm = "0.28"
arboard = "3"
winreg = "0.52"
