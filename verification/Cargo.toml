[package]
name = "composable_query_builder"
version = "0.1.0"
edition = "2021"
publish = false

[dependencies]
chrono = { version = "*", default-features = false, features = ["std"] }
itertools = "*"
sqlx = { version = "*", default-features = false, features = ["postgres", "chrono"] }
