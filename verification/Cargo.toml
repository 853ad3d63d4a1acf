[package]
name = "assume_role_profile"
version = "0.1.0"
edition = "2021"
publish = false

[dependencies]
async-trait = "0.1"
dirs = "*"
rusoto_core = { version = "*", default-features = false, features = ["rustls"] }
rusoto_credential = "*"
rusoto_sts = { version = "*", default-features = false, features = ["rustls"] }
tokio = { version = "1", features = ["sync"] }

[dev-dependencies]
regex = "1"
