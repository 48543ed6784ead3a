[package]
name = "mfqp"
version = "0.1.0"
edition = "2021"
publish = false

[dependencies]
sublime_fuzzy = "*"
json = "*"
reqwest = { version = "*", default-features = false }
tokio = { version = "*", features = ["macros", "rt-multi-thread"] }
termcolor = "*"
atty = "*"
dirs = "*"
