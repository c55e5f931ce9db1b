[package]
name = "proxy"
version = "0.1.0"
edition = "2021"
publish = false

[dependencies]
bytes = "1"
futures-core = "0.3"
http = "0.2"
http-body = "0.4"
hyper = { version = "0.14", features = ["client", "server", "http1", "http2", "tcp"] }
hyper-tls = "0.5"
pin-project-lite = "0.2"
tokio = { version = "1", features = ["macros", "rt-multi-thread", "time"] }
tower = { version = "0.4", features = ["make", "retry", "util"] }
tower-http = { version = "0.4", features = ["request-id", "trace", "util"] }
tracing = { version = "0.1", features = ["log"] }
tracing-subscriber = { version = "0.3", features = ["env-filter", "json"] }
