[package]
name = "sunray"
version = "0.1.0"
edition = "2021"
publish = false

[dependencies]
petgraph = "0.6"
ash = "0.38"
vk-sync-fork = "*"
log = "0.4"
