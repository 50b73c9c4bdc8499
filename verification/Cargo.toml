[package]
name = "proof_of_sql_db"
version = "0.1.0"
edition = "2021"
publish = false

[dependencies]
bumpalo = "3"
blake3 = { version = "1", default-features = false, features = ["pure"] }
num-bigint = "0.4"
serde = { version = "1", features = ["derive"] }
serde_json = "1"
sqlparser = { version = "0.45", default-features = false }
