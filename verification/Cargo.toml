[package]
name = "ckb_vm_pprof"
version = "0.1.0"
edition = "2021"
publish = false

[dependencies]
addr2line = "0.16"
nix = { version = "*", features = ["signal"] }
ckb-vm = { version = "*", features = ["asm"] }
libc = "*"
