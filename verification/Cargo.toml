[package]
name = "monoio"
version = "0.1.0"
edition = "2021"
publish = false

[dependencies]
mio = { version = "0.8", features = ["os-poll", "os-ext", "net"] }
flume = "0.11"
fxhash = "0.2"
once_cell = "1"
libc = "0.2"
io-uring = "0.6"
