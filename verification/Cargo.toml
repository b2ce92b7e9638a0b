[package]
name = "unwinder"
version = "0.1.0"
edition = "2021"
publish = false

[dependencies]
addr2line = "*"
findshlibs = "*"
gimli = { version = "*", features = ["write"] }
libc = "*"
locate-dwarf = "*"
memmap = "*"
nix = "*"
object = { version = "*", features = ["write"] }
thiserror = "*"
