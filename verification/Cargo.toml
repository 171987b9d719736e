[package]
name = "demikernel_core"
version = "0.1.0"
edition = "2021"
publish = false

[dependencies]
slab = "0.4"
arrayvec = "0.7"
socket2 = "0.5"
libc = "0.2"

[dev-dependencies]
anyhow = "1.0"
futures = "0.3"
