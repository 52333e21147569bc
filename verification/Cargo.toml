[package]
name = "update_check"
version = "0.1.0"
edition = "2021"
publish = false

[dependencies]
semver = "*"
serde = { version = "*", features = ["derive"] }
serde-xml-rs = "*"
libflate = "*"
reqwest = { version = "*", default-features = false, features = ["json"] }
tokio = { version = "*", features = ["macros", "rt-multi-thread"] }
futures = "*"
clap = { version = "*", features = ["derive"] }
