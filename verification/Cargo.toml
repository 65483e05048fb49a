[package]
name = "m3utohtml"
version = "0.1.0"
edition = "2021"
publish = false

[dependencies]
quick-xml = "*"
html-escape = "*"
thiserror = "*"
clap = { version = "*", features = ["derive"] }
dirs = "*"
lofty = "*"
tokio = { version = "*", features = ["rt-multi-thread"] }
reqwest = { version = "*", default-features = false }
sqlx = { version = "*", default-features = false, features = ["sqlite", "runtime-tokio"] }
async-channel = "*"
gtk4 = "*"
