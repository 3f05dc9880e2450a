[package]
name = "pipa"
version = "0.1.0"
edition = "2021"
publish = false

[dependencies]
aes-gcm = "0.10"
sha2 = "0.10"
rand = "0.8"
chrono = "0.4"
regex = "1"
url = "2"
urlencoding = "2"
serde_json = "1"
serde = { version = "1", features = ["derive"] }
toml = "0.8"
clap = { version = "4", features = ["derive"] }
glob = "0.3"
hostname = "0.4"
whoami = "1"
anyhow = "1"
thiserror = "1"
once_cell = "1"
async-trait = "0.1"
tokio = { version = "1", default-features = false, features = ["rt-multi-thread", "macros"] }
reqwest = { version = "0.12", default-features = false, features = ["json", "rustls-tls"] }
jsonwebtoken = "9"
polars = { version = "0.50", default-features = false, features = ["lazy", "csv", "parquet", "is_in", "abs", "fmt"] }
polars-io = { version = "0.50", default-features = false, features = ["csv", "parquet"] }
