[package]
name = "schema_compiler"
version = "0.1.0"
edition = "2021"
publish = false

[dependencies]
change-case = "*"
rand = "=0.8.8"
sqlx = { version = "=0.8.6", default-features = false, features = ["postgres", "runtime-tokio"] }
