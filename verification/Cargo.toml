[package]
name = "velo"
version = "0.1.0"
edition = "2021"
publish = false

[dependencies]
bytes = "1"
chrono = { version = "0.4", default-features = false, features = ["clock", "serde"] }
futures-core = "0.3"
futures-util = "0.3"
http = "=1.5.0"
http-body = "1"
http-body-util = "0.1"
hyper = { version = "1", features = ["http1", "server"] }
hyper-util = { version = "0.1", features = ["server", "server-auto", "server-graceful", "http1", "http2", "tokio"] }
indexmap = "=2.14.2"
percent-encoding = "=2.3.2"
proc-macro2 = "1"
quote = "1"
regex = "=1.13.1"
serde = { version = "1", features = ["derive"] }
serde_json = "1"
serde_path_to_error = "0.1"
syn = { version = "2", features = ["full", "extra-traits"] }
tokio = { version = "1", features = ["macros", "net", "rt", "rt-multi-thread", "signal", "sync", "time"] }
tracing = "0.1"
uuid = { version = "1", features = ["serde"] }
