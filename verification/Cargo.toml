[package]
name = "ikigai-store"
version = "0.2.3"
edition = "2021"
publish = false

[dependencies]
async-trait = "0.1"
ikigai-core = "0.1"
oxigraph = { version = "=0.5.11", default-features = false }
serde = { version = "1", features = ["derive"] }
serde_json = "1"
toml = "1"

[dev-dependencies]
futures = "0.3"
ikigai-conformance = "0.3"
ikigai-vocab = "0.1"
