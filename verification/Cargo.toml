[package]
name = "cargo-guppy"
version = "0.1.0"
edition = "2021"
publish = false

[dependencies]
cargo_metadata = "*"
cfg-expr = "*"
petgraph = "*"
semver = "*"
serde = { version = "1", features = ["derive"] }
structopt = "0.3"
toml = "*"
