[package]
name = "doc_sync"
version = "0.1.0"
edition = "2021"
publish = false

[dependencies]
regex = "1"
normalize-path = "*"
toml = "0.8"
clap = { version = "4", features = ["derive"] }
glob = "0.3"
proc-macro2 = { version = "1", features = ["span-locations"] }
rustdoc-types = "0.22"
serde_json = "1"
syn = { version = "2", features = ["full", "extra-traits"] }
tracing = "0.1"
tracing-subscriber = "0.3"
xshell = "0.2"
