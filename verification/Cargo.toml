[package]
name = "combustion_probe"
version = "0.1.0"
edition = "2021"
publish = false

[dependencies]
actix-web = { version = "=4.18.1", default-features = false, features = ["macros"] }
anyhow = "=1.0.104"
aws-config = "=1.6.3"
aws-sdk-s3 = "=1.152.0"
aws-smithy-types = "=1.9.0"
bytes = "=1.12.1"
chrono = "=0.4.45"
env_logger = "=0.11.11"
handlebars = "=6.4.4"
http-body-util = "=0.1.5"
hyper = { version = "=1.12.0", features = ["server", "http1"] }
hyper-util = { version = "=0.1.21", features = ["tokio"] }
log = "=0.4.34"
rand = "=0.10.3"
tokio = { version = "=1.54.1", features = ["full"] }
xflags = "=0.3.2"
