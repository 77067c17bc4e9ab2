[package]
name = "weblayer"
version = "0.1.0"
edition = "2021"
publish = false

[dependencies]
app_units = "*"
bytes = "1"
crossbeam-channel = "0.5"
euclid = "*"
headers = "0.4"
http = "1"
http-body-util = "0.1"
hyper = { version = "1", features = ["client", "http1"] }
log = "0.4"
postcard = { version = "1", features = ["use-std"] }
rusqlite = { version = "*", features = ["bundled"] }
sea-query = "*"
sea-query-rusqlite = "*"
serde = { version = "1", features = ["derive"] }
serde_json = "1"
tempfile = "3"
tokio = { version = "1", features = ["sync", "macros", "rt", "time"] }
url = "2"
uuid = { version = "1", features = ["v4", "v5"] }
