[package]
name = "tachyobench"
version = "0.1.0"
edition = "2021"
publish = false

[dependencies]
async-channel = "=2.5.0"
async-task = "=4.7.1"
flume = "=0.12.0"
futures-channel = { version = "=0.3.34", features = ["sink"] }
futures-util = { version = "=0.3.34", features = ["sink", "channel"] }
lexopt = "=0.3.2"
nexosim = { version = "=0.3.4", features = ["dev-hooks"] }
num_cpus = "=1.17.0"
postage = "=0.5.0"
smol = "=2.0.2"
smolscale = "=0.4.16"
tachyonix = "=0.3.1"
thingbuf = "=0.1.6"
tokio = { version = "=1.54.1", features = ["rt-multi-thread", "sync"] }
