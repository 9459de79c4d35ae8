[package]
name = "vakya"
version = "0.1.0"
edition = "2021"
publish = false

[dependencies]
bytes = "=1.12.1"
http = "=1.5.0"
httparse = "=1.10.1"
httpdate = "=1.0.3"
karmaio = { version = "=0.1.0", features = ["bytes", "net"] }
