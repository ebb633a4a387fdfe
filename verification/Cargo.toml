[package]
name = "chatrelay"
version = "0.1.0"
edition = "2021"
publish = false

[dependencies]
textwrap = "=0.16.4"
tokio = { version = "=1.54.1", features = ["net", "io-util", "sync", "rt-multi-thread", "macros", "time"] }
crossterm = "=0.23.2"
tui = "=0.18.0"
image = { version = "=0.24.9", default-features = false, features = ["jpeg", "png"] }
rscam = "=0.5.5"
tui-image = "=0.2.0"
chrono = "=0.4.45"
