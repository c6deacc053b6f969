[package]
name = "hayate_core"
version = "0.1.0"
edition = "2021"
publish = false

[dependencies]
accesskit = "=0.25.2"
slotmap = "=1.1.1"
taffy = "=0.7.7"
