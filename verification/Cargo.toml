[package]
name = "bpf_verifier"
version = "0.1.0"
edition = "2021"
publish = false

[dependencies]
object = { version = "=0.40.0", features = ["write"] }
addr2line = "=0.27.1"
serde = { version = "=1.0.229", features = ["derive"] }
serde_json = "=1.0.154"
ariadne = "=0.6.0"
clap = { version = "=4.6.7", features = ["derive"] }
shlex = "=2.0.1"
tempfile = "=3.27.0"
anyhow = "=1.0.104"
thiserror = "=2.0.21"
