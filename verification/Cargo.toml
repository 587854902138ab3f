[package]
name = "hydrozoa"
version = "0.1.0"
edition = "2021"
publish = false

[dependencies]
hashbrown = "=0.17.1"
bytemuck = "=1.25.2"
serde = { version = "=1.0.229", features = ["derive"] }
anyhow = "=1.0.104"
snafu = "=0.9.2"
vex-sdk = "=0.29.0"
vexide = "=0.8.0"
libc_alloc = "=1.0.7"
wamr-sys = "=0.1.1"
syn = { version = "=2.0.119", features = ["full"] }
quote = "=1.0.47"
proc-macro2 = "=1.0.107"
