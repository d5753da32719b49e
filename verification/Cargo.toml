[package]
name = "pyscan"
version = "0.1.6"
edition = "2021"
publish = false

[dependencies]
anyhow = "1"
async-trait = "0.1"
chrono = "0.4"
clap = { version = "4", features = ["derive"] }
console = "*"
dirs = "*"
lazy_static = "1"
lenient_semver = "*"
once_cell = "1"
regex = "1"
reqwest = { version = "0.12", default-features = false, features = ["blocking", "json", "rustls-tls"] }
semver = "1"
serde = { version = "1", features = ["derive"] }
serde_json = "1"
sqlx = { version = "*", default-features = false, features = ["sqlite", "runtime-tokio", "chrono"] }
tokio = { version = "1", features = ["full"] }
toml = "*"
xxhash-rust = { version = "*", features = ["xxh3"] }

[dev-dependencies]
chumsky = "*"
