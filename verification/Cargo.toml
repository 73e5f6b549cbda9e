[package]
name = "discovery"
version = "0.1.0"
edition = "2021"
publish = false

[dependencies]
heapless = "0.8"
cortex-m = "0.5"
cortex-m-rt = "0.6"
f3 = "0.6"
lsm303dlhc = "0.2"
m = "0.1"
