[package]
name = "bah"
version = "2.6.2"
edition = "2021"
publish = false

[dependencies]
alpm = "*"
alpm-sys = "*"
alpm-utils = "*"
ansiterm = "0.12"
anyhow = "1"
aur-depends = "*"
chrono = "0.4"
flate2 = "1"
log = "0.4"
nix = { version = "0.30", features = ["fs", "user", "process", "signal"] }
raur = "*"
regex = "1"
reqwest = { version = "0.12", default-features = false, features = ["rustls-tls"] }
serde = { version = "1", features = ["derive"] }
serde_json = "1"
signal-hook = "0.3"
srcinfo = "*"
tr = { version = "0.1", default-features = false, features = ["gettext"] }
unicode-width = "0.2"
