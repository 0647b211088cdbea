[package]
name = "manifest_deps"
version = "0.1.0"
edition = "2021"
publish = false

[dependencies]
anyhow = "=1.0.104"
deno_ast = { version = "=0.53.3", default-features = false }
deno_config = "=0.16.4"
deno_semver = "=0.5.16"
futures = "=0.3.34"
indexmap = "=2.14.2"
jsonc-parser = "=0.23.0"
log = "=0.4.34"
serde_json = "=1.0.154"
tokio = { version = "=1.54.1", features = ["fs"] }
url = "=2.5.8"
