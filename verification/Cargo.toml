[package]
name = "trackmix"
version = "0.1.0"
edition = "2021"
publish = false

[dependencies]
cpal = "0.15"
rubato = "0.13"
wav = "1"
once_cell = "1"
rand = "0.8"
