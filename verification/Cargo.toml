[package]
name = "automerge_doc"
version = "0.1.0"
edition = "2021"
publish = false

[dependencies]
automerge = "0.5"
hex = "0.4"
thiserror = "1"
uniffi = "0.25"
