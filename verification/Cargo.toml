[package]
name = "balancebeam"
version = "0.1.0"
edition = "2021"
publish = false

[dependencies]
rand = "=0.7.3"
http = "=0.2.12"
httparse = "=1.10.1"
log = "=0.4.34"
pretty_env_logger = "=0.4.0"
clap = { version = "=3.2.25", features = ["derive"] }
tokio = { version = "=0.2.25", features = ["full"] }
crossbeam = "=0.7.3"
num_cpus = "=1.17.0"
nix = "0.17"
rustyline = "6.1"
reqwest = "0.9"
select = "0.4"
error-chain = "0.12"
