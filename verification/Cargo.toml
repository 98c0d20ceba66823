[package]
name = "imo"
version = "0.1.0"
edition = "2021"
publish = false

[dependencies]
gimli = "*"
object = "*"
rustc-hash = "*"
nix = { version = "*", features = ["ptrace", "signal", "process", "uio"] }
owo-colors = "*"
thiserror = "*"
memmap2 = "*"
rustyline = "*"
iced-x86 = "*"

[dev-dependencies]
strip-ansi-escapes = "*"
