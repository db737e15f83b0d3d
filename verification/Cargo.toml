[package]
name = "fib_find"
version = "0.1.0"
edition = "2021"
publish = false

[dependencies]
bstr = { version = "1", default-features = false, features = ["std"] }
clap = { version = "4", features = ["derive"] }
ibig = { version = "0.3", default-features = false, features = ["std"] }
