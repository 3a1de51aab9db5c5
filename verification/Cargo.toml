[package]
name = "astroport_liquidity_helper"
version = "0.1.0"
edition = "2021"
publish = false

[dependencies]
cosmwasm-std = "1"
cosmwasm-schema = "1"
serde = "1"
schemars = "0.8"
cw-asset = "3"
cw-dex = { version = "0.5", features = ["astroport"], default-features = false }
astroport = "2"
