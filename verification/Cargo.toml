[package]
name = "cfs_sched"
version = "0.1.0"
edition = "2021"
publish = false

[dependencies]
priority-queue = "1"
ahash = { version = "0.7", default-features = false }
vec-arena = "1"
smallvec = "1"
async-task = "4"
spin = "0.9"
log = "0.4"
