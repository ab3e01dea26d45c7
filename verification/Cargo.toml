[package]
name = "sg_to_csv"
version = "0.1.0"
edition = "2021"
publish = false

[dependencies]
anyhow = "=1.0.104"
async-compression = { version = "=0.4.51", features = ["futures-io", "gzip"] }
clap = { version = "=3.2.25", features = ["derive", "env"] }
futures-util = { version = "=0.3.34", features = ["io"] }
opendal = { version = "=0.45.1", features = ["services-fs"] }
tokio = { version = "=1.54.1", features = ["macros", "rt-multi-thread"] }
tokio-postgres = "=0.7.18"
