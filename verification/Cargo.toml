[package]
name = "firecore_battle"
version = "0.1.0"
edition = "2021"
publish = false

[dependencies]
firecore-pokedex = "=0.0.9"
rand = "=0.8.8"
serde = { version = "=1.0.229", features = ["derive"] }
log = "=0.4.35"
hashbrown = "=0.17.1"
rhai = "=1.27.0"
tinystr = "=0.6.2"
crossbeam-channel = "=0.5.17"
ron = "=0.8.1"
