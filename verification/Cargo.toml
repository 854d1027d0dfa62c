[package]
name = "vote_relay"
version = "0.1.0"
edition = "2021"
publish = false

[dependencies]
cosmwasm-schema = "1"
cosmwasm-std = "1"
cw2 = "1"
ethabi = "18"
