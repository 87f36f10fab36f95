[package]
name = "matrix_client_logic"
version = "0.1.0"
edition = "2021"
publish = false

[dependencies]
eyeball = "*"
fuzzy-matcher = "*"
ruma = { version = "*", features = ["events"] }
tokio = { version = "1", features = ["sync", "time", "rt"] }
futures-util = "0.3"
tracing-subscriber = "0.3"
javascriptcore = "*"
