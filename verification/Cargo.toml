[package]
name = "vmm-demo"
version = "0.1.0"
edition = "2021"
publish = false

[dependencies]
kvm-bindings = { version = "=0.14.2", features = ["fam-wrappers"] }
kvm-ioctls = "=0.24.0"
libc = "=0.2.191"
linux-loader = { version = "=0.13.2", features = ["bzimage"] }
vm-memory = { version = "=0.17.1", features = ["backend-mmap"] }
