[package]
name = "lua_resty_protobuf"
version = "0.1.0"
edition = "2021"
publish = false

[dependencies]
rand = "=0.8.8"

[dev-dependencies]
opentelemetry-proto = { version = "=0.33.0", default-features = false, features = ["gen-tonic-messages", "trace"] }
prost = "=0.14.4"
