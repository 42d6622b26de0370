[package]
name = "dragon_net"
version = "0.1.0"
edition = "2021"
publish = false

[dependencies]
smoltcp = "=0.14.0"
hashbrown = "=0.17.1"
