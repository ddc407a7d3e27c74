[package]
name = "port_sentinel"
version = "0.1.0"
edition = "2021"
publish = false

[dependencies]
bcrypt = "*"
serde = { version = "*", features = ["derive"] }
serde_json = "*"
tokio = { version = "*", features = ["rt-multi-thread", "macros", "net", "time"] }
axum = "*"
axum-extra = { version = "*", features = ["cookie-private"] }
tower-http = { version = "*", features = ["cors", "fs"] }
reqwest = { version = "*", default-features = false, features = ["json"] }
clap = { version = "*", features = ["derive"] }
sysinfo = "*"
