[package]
name = "hntui"
version = "0.1.0"
edition = "2021"
publish = false

[dependencies]
crossterm = "0.25"
directories = "5"
futures = "0.3"
regex = "1"
serde = { version = "1", features = ["derive"] }
time = { version = "0.3", features = ["serde"] }
tini = "1"
tokio = { version = "1", features = ["rt-multi-thread", "macros"] }
tui = "0.19"
ureq = { version = "2", features = ["json"] }
webbrowser = "0.8"
