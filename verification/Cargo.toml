[package]
name = "signal_tones"
version = "0.1.0"
edition = "2021"
publish = false

[dependencies]
adi = "=0.12.0"
evdev = "=0.10.2"
libc = "=0.2.191"
serde = "=1.0.229"
serde_derive = "=1.0.229"
toml = "=0.5.11"
twang = "=0.2.0"
udev = "=0.4.0"
