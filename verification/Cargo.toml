[package]
name = "vhdl_waves"
version = "0.1.0"
edition = "2021"
publish = false

[dependencies]
clap = { version = "=4.6.7", features = ["derive"] }
glob = "=0.3.4"
string-builder = "=0.2.0"
vhdl_lang = "=0.74.0"
