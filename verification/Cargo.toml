[package]
name = "ros_kernel"
version = "0.1.0"
edition = "2021"
publish = false

[dependencies]
bitflags = "=1.3.2"
cfg-if = "1"
easy-fs = "=0.1.1"
fat32 = "=0.2.0"
lazy_static = "1"
log = "0.4"
spin = "0.9"
virtio-drivers = "=0.1.0"
