[package]
name = "player_list"
version = "0.1.0"
edition = "2021"
publish = false

[dependencies]
arcdps = "=0.11.2"
once_cell = "=1.21.4"
toml = "=0.5.11"

[dev-dependencies]
windows = { version = "=0.48.0", features = ["System"] }
