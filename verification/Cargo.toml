[package]
name = "bynar"
version = "0.1.0"
edition = "2021"
publish = false

[dependencies]
petgraph = "=0.6.5"
chrono = "=0.4.45"
serde = { version = "=1.0.229", features = ["derive"] }
serde_json = "=1.0.154"
log = "=0.4.35"
block-utils = "=0.11.1"
uuid = { version = "=1.29.0", features = ["v4"] }
clap = "=2.34.0"
zmq = "=0.10.0"
protobuf = "=3.7.2"
postgres = "=0.19.14"
r2d2 = "=0.8.10"
r2d2_postgres = "=0.18.2"
gpt = "=4.1.0"
signal-hook = "=0.4.6"
simplelog = "=0.12.2"
daemonize = "=0.5.0"
hostname = "=0.4.2"
uname = "=0.1.1"
nix = "=0.18.0"
init-daemon = "=0.1.0"
ceph = "=3.2.5"
lvm = "=0.3.1"
blkid = "=1.0.1"
libatasmart = "=0.3.3"
slack-hook = "=0.2.0"
goji = "=0.1.1"
fstab = "=0.4.0"
