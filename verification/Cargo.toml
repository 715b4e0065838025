[package]
name = "schema_compat"
version = "0.1.0"
edition = "2021"
publish = false

[dependencies]
capnp = "0.17"
capnpc = "0.17"
clap = { version = "4", features = ["derive"] }
