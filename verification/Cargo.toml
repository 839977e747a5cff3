[package]
name = "luhproc"
version = "0.1.0"
edition = "2021"
publish = false

[dependencies]
chrono = "*"
luhcore = "*"
luhlog = "*"
luhtwin = "*"
nix = { version = "*", features = ["signal"] }
