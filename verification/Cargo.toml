[package]
name = "dbadapter"
version = "0.1.0"
edition = "2021"
publish = false

[dependencies]
tokio = { version = "*", features = ["rt-multi-thread", "time"] }
tokio-postgres = "*"
tokio-postgres-rustls = "*"
rustls = "*"
webpki-roots = "*"
mysql_async = "*"
redis = { version = "*", features = ["tokio-comp"] }
rusqlite = { version = "*", features = ["bundled"] }
