[package]
name = "spru_script"
version = "0.1.0"
edition = "2021"
publish = false

[dependencies]
rand = "0.9"
append-only-vec = "0.1"
rhai = { version = "1", features = ["sync"] }
mlua = { version = "0.10", features = ["lua54", "vendored", "send"] }
rust-fsm = "0.7"
serde = { version = "1", features = ["derive"] }
syn = { version = "2", features = ["full", "fold"] }
quote = "1"
proc-macro2 = "1"
