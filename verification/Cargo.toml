[package]
name = "truce_rack"
version = "0.1.0"
edition = "2021"
publish = false

[dependencies]
smallvec = "1"
pico-args = "0.5"
clap-sys = "0.5"
vst3 = "0.3"
lv2_raw = "0.2"
lilv-sys = "0.2"
keyboard-types = "0.6"
raw-window-handle = "0.5"
libloading = "0.8"
dirs = "6"
thiserror = "2"
bitflags = "2"
libc = "0.2"
