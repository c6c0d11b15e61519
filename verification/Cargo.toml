[package]
name = "sshpoll"
version = "0.1.0"
edition = "2021"
publish = false

[dependencies]
chrono = "0.4"
dirs = "*"
indicatif = "*"
ssh2 = "*"
ssh2-config = "*"
structopt = "0.3"
tokio = { version = "1", features = ["macros", "rt-multi-thread", "time"] }
