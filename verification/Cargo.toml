[package]
name = "sc_client"
version = "0.1.0"
edition = "2021"
publish = false

[dependencies]
rosc = "=0.11.4"
nom = "=7.1.3"
chashmap = "=2.2.2"
uid = "=0.1.9"
config = "*"
log = "*"
os_pipe = "*"
serde = "*"
serde_derive = "*"
