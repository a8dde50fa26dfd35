[package]
name = "ruxel"
version = "0.1.0"
edition = "2021"
publish = false

[dependencies]
im-rc = "15"
serde_json = "1"
actix-web = "4"
image = "*"
libc = "0.2"
termios = "0.3"
