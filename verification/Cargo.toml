[package]
name = "pgpt"
version = "0.1.0"
edition = "2021"
publish = false

[dependencies]
crossbeam-channel = "=0.5.17"
uuid = { version = "=1.27.0", features = ["v4"] }
tokenizers = { version = "=0.23.2", default-features = false, features = ["onig", "esaxx_fast"] }
sqlparser = "=0.63.0"
serde_json = "=1.0.151"
encoding_rs = "=0.8.42"
candle-core = "=0.11.0"
candle-nn = "=0.11.0"
candle-transformers = "=0.11.0"
