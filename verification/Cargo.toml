[package]
name = "axvm"
version = "0.1.0"
edition = "2021"
publish = false

[dependencies]
ax-errno = "=0.6.3"
ax-page-table-multiarch = "=0.8.15"
# axvcpu 0.5.9 builds only with these releases of the per-CPU crates.
ax-percpu = "=0.4.11"
ax-percpu-macros = "=0.4.9"
axaddrspace = "=0.5.11"
axdevice = "=0.2.2"
axerrno = "=0.2.2"
axvcpu = "=0.5.9"
axvmconfig = { version = "=0.2.2", default-features = false }
gdbstub = { version = "=0.7.10", default-features = false, features = ["alloc"] }
gdbstub_arch = "=0.3.3"
log = "=0.4.35"
raki = "=1.3.2"
spin = "=0.9.9"
