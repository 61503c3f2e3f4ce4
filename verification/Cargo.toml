[package]
name = "branch_review"
version = "0.1.0"
edition = "2021"
publish = false

[dependencies]
chrono = "*"
crossterm = "*"
thiserror = "*"

[dependencies.git2]
version = "*"
default-features = false
