[package]
name = "lion"
version = "0.1.0"
edition = "2021"
publish = false

[dependencies]
sys-info = "=0.9.1"
system_shutdown = "=4.1.0"
systemstat = "=0.2.7"
zmq = "=0.10.0"
signal-hook = "=0.4.5"
