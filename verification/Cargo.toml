[package]
name = "sosistab_core"
version = "0.1.0"
edition = "2021"
publish = false

[dependencies]
blake3 = "*"
chacha20poly1305 = "*"
x25519-dalek = "*"
reed-solomon-erasure = "*"
strsim = "*"
rand = "0.8"
smol = "*"
smolscale = "*"
anyhow = "*"
log = "*"
once_cell = "*"
socket2 = "*"
