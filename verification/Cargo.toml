[package]
name = "dioxus_use_computed"
version = "0.1.0"
edition = "2021"
publish = false

[dependencies]
dioxus-lib = "*"
