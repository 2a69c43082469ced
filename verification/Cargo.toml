[package]
name = "d_compiler"
version = "0.1.0"
edition = "2021"
publish = false

[dependencies]
wasm-encoder = "*"
lsp-server = "*"
lsp-types = "*"
serde = "*"
serde_json = "*"
anyhow = "*"
dap = "=0.4.1-alpha1"
