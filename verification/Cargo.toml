[package]
name = "vmm_core"
version = "0.1.0"
edition = "2021"
publish = false

[dependencies]
anyhow = "=1.0.104"
epoll = "=4.4.0"
libc = "=0.2.191"
log = "=0.4.35"
serde = { version = "=1.0.229", features = ["derive"] }
serde_json = "=1.0.154"
thiserror = "=2.0.21"
virtio-queue = "=0.18.0"
vm-memory = { version = "=0.18.0", features = ["backend-mmap", "backend-atomic", "backend-bitmap"] }
vmm-sys-util = "=0.15.0"
