[package]
name = "ncgmgr"
version = "0.1.0"
edition = "2021"
publish = false

[dependencies]
semver-parser = "*"
git2 = "*"
sysinfo = "*"
rm_rf = "*"
flate2 = "*"
tar = "*"
serde = { version = "*", features = ["derive"] }
serde_json = "*"
thiserror = "*"
