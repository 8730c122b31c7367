[package]
name = "sysjack"
version = "0.1.0"
edition = "2021"
publish = false

[dependencies]
nc = "*"
nix = { version = "*", features = ["ptrace", "process", "signal"] }
libc = "*"
bincode = "1"
serde = { version = "1", features = ["derive"] }
serde-big-array = "*"
byte-slice-cast = "*"
getopts = "*"
is_executable = "*"
errno = "*"
