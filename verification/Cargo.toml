[package]
name = "spreadsheet_ods"
version = "0.1.0"
edition = "2021"
publish = false

[dependencies]
quick-xml = "*"
zip = { version = "*", default-features = false, features = ["deflate"] }
chrono = { version = "*", default-features = false, features = ["std"] }
time = { version = "*", default-features = false, features = ["std"] }
rust_decimal = { version = "*", default-features = false, features = ["std"] }
log = "*"
