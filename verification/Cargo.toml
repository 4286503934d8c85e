[package]
name = "phonon"
version = "0.1.0"
edition = "2021"
publish = false

[dependencies]
ringbuf = "=0.3.3"
kira = { version = "0.8", default-features = false }
derive_deref = "=1.1.1"
