[package]
name = "lcd_dashboard"
version = "0.1.0"
edition = "2021"
publish = false

[dependencies]
anyhow = "=1.0.104"
i2cdev = "=0.5.1"
lcd = "=0.4.1"
lcd-pcf8574 = "=0.2.0"
libc = "=0.2.191"
nix = "=0.23.2"
signal-hook = "=0.4.5"
systemstat = "=0.2.7"
