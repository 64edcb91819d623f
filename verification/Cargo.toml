[package]
name = "starry_task"
version = "0.1.0"
edition = "2021"
publish = false

[dependencies]
ax-errno = "=0.6.3"
ax-memory-addr = "=0.7.1"
bytemuck = { version = "=1.25.2", features = ["extern_crate_alloc"] }
kernel-elf-parser = "=0.3.4"
starry-process = "=0.4.8"
uluru = "=3.1.0"
xmas-elf = "=0.9.1"

[dev-dependencies]
ax-kspin = { version = "=0.3.17", features = ["host-test"] }
linux-raw-sys = { version = "=0.12.1", features = ["general", "errno"] }
