[package]
name = "mng_tracker"
version = "0.1.0"
edition = "2021"
publish = false

[dependencies]
chrono = "0.4"
async-std = { version = "1", features = ["attributes"] }
async-trait = "0.1"
futures = "0.3"
structopt = "0.3"
text_io = "0.1"
tide = "0.16"
xactor = "0.7"
yahoo_finance_api = "1"
