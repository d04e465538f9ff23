[package]
name = "sep2_client"
version = "0.1.0"
edition = "2021"
publish = false

[dependencies]
sha2 = "=0.10.9"
x509-parser = "=0.15.1"
rand = "=0.8.8"
sep2_common = { version = "=0.2.0", features = ["examples", "dcap", "edev", "fsa", "pubsub", "response", "time", "der", "drlc", "pricing", "messaging", "flow_reservation"] }
anyhow = "=1.0.104"
log = "=0.4.35"
tokio = { version = "=1.54.1", features = ["full"] }
hyper = { version = "=0.14.32", features = ["full"] }
hyper-openssl = "=0.9.2"
openssl = "=0.10.82"
tokio-openssl = "=0.6.5"
httpdate = "=1.0.3"
async-trait = "=0.1.92"
dashmap = "=5.5.3"
