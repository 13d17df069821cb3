[package]
name = "cute"
version = "0.1.0"
edition = "2021"
publish = false

[dependencies]
clang = { version = "2", features = ["clang_10_0", "runtime"] }
clap = { version = "4", features = ["derive"] }
codespan-reporting = "0.11"
serde = { version = "1", features = ["derive"] }
thiserror = "2"
toml = "0.8"
