[package]
name = "excel2sql"
version = "0.1.0"
edition = "2021"
publish = false

[dependencies]
calamine = "*"
mysql = { version = "*", default-features = false }
structopt = "*"
