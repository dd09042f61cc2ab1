[package]
name = "hillside_keyberon"
version = "0.1.0"
edition = "2021"
publish = false

[dependencies]
keyberon = "=0.1.1"
usb-device = "=0.2.9"
embedded-hal = "=0.2.7"
generic-array = "=0.13.3"
nb = "=1.1.0"
fugit = "=0.3.9"
cortex-m = "=0.7.10"
cortex-m-rtic = "=1.1.4"
rp2040-hal = "=0.9.2"
rp-pico = "=0.8.0"
defmt = "=0.3.101"
defmt-rtt = "=0.4.2"
panic-probe = "=0.3.2"
