[package]
name = "sbrd_gen"
version = "0.1.0"
edition = "2021"
publish = false

[dependencies]
rand = "0.8"
rand_distr = "0.4"
chrono = "0.4"
evalexpr = "7"
rt-format = "*"
human-string-filler = "*"
either = "1"
clap = { version = "3", features = ["derive"] }
serde = { version = "1", features = ["derive"] }
serde_json = "1"
serde_yaml = "0.8"
exitcode = "1"
human-panic = "1"
