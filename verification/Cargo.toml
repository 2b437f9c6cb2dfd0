[package]
name = "brink"
version = "0.1.0"
edition = "2021"
publish = false

[dependencies]
landlock = "0.4"
libc = "0.2"
nix = { version = "0.29", features = ["event", "fs", "mount", "process", "resource", "socket", "term", "uio"] }
serde = { version = "1", features = ["derive"] }
serde_json = "1"
tokio = { version = "1", features = ["macros", "net", "rt", "rt-multi-thread", "time"] }
