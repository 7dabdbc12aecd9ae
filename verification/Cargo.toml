[package]
name = "task_manager"
version = "0.1.0"
edition = "2021"
publish = false

[dependencies]
sysinfo = "0.29"
procfs = "0.15"
users = "0.11"
cursive = { version = "0.20", default-features = false, features = ["crossterm-backend"] }
cursive_table_view = "0.14"
