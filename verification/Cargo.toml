[package]
name = "zapolab_mixer"
version = "0.1.0"
edition = "2021"
publish = false

[dependencies]
defmt = "=1.2.0"
embassy-executor = "=0.9.1"
embassy-sync = "=0.8.0"
embassy-time = "=0.5.1"
embassy-usb = "=0.6.0"
embedded-graphics = "=0.8.1"
panic-probe = "=1.0.0"
ssd1306 = "=0.10.0"
static_cell = "=2.1.1"
