[package]
name = "nat_traversal"
version = "0.1.0"
edition = "2021"
publish = false

[dependencies]
rand = "0.8"
net2 = "0.2"
igd = "0.12"
