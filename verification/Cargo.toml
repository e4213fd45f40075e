[package]
name = "axebpf"
version = "0.1.0"
edition = "2021"
publish = false

[dependencies]
rbpf = "*"
log = "*"
spin = "*"
axerrno = "*"
kbpf-basic = "*"
ksym = "*"
static-keys = "*"
