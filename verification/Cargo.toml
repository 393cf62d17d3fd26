[package]
name = "week_planner"
version = "0.1.0"
edition = "2021"
publish = false

[dependencies]
uuid = { version = "1", features = ["v4"] }
console_engine = { version = "2", features = ["event", "form"] }
sqlx = { version = "0.8", default-features = false, features = ["runtime-tokio", "postgres", "uuid", "derive"] }
actix-web = { version = "4", default-features = false, features = ["macros"] }
