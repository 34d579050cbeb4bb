[package]
name = "termsnap"
version = "0.1.0"
edition = "2021"
publish = false

[dependencies]
alacritty_terminal = "*"
anyhow = "*"
arrayvec = "*"
clap = { version = "*", features = ["derive"] }
rustix = { version = "*", features = ["event", "termios"] }
signal-hook = "*"
