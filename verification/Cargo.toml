[package]
name = "libretto"
version = "0.1.0"
edition = "2021"
publish = false

[dependencies]
url = "=2.5.8"
nix = { version = "=0.31.3", features = ["user", "fs", "process", "signal"] }
libc = "=0.2.191"
directories = "=6.0.0"
semver = "=1.0.28"
fs2 = "=0.4.3"
tokio = { version = "=1.54.1", features = ["fs", "io-util", "rt"] }
serde = { version = "=1.0.229", features = ["derive"] }
serde_json = "=1.0.154"
walkdir = "=2.5.0"
rustls-pemfile = "=2.2.0"
petgraph = { version = "=0.6.5", default-features = false }
rustls = { version = "0.23", default-features = false, features = ["ring", "std", "tls12"] }
webpki-roots = "0.26"
