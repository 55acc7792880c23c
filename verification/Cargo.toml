[package]
name = "logpipe"
version = "0.1.0"
edition = "2021"
publish = false

[dependencies]
android_logger = "0.11"
jni = "0.21"
libc = "0.2"
log = "0.4"
ndk-sys = "*"
once_cell = "1"
