[package]
name = "sqlparser_canonicalize"
version = "0.1.0"
edition = "2021"
publish = false

[dependencies]
sqlparser = "*"
seahash = "4"
thiserror = "*"
