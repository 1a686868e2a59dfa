[package]
name = "riscv_test_runner"
version = "0.1.0"
edition = "2021"
publish = false

[dependencies]
heapless = "=0.9.3"
owo-colors = "=4.4.0"
semihosting = { version = "=0.1.25", features = ["stdio"] }
embedded-alloc = "=0.7.0"
riscv-rt = "*"
syn = { version = "=2.0.119", features = ["full"] }
quote = "=1.0.47"
proc-macro2 = "=1.0.107"
