[package]
name = "netgame"
version = "0.1.0"
edition = "2021"

[dependencies]
collider = "0.3"
ggez = "0.5"
rand = "0.8"
