[package]
name = "es"
version = "0.1.0"
edition = "2021"
publish = false

[dependencies]
avr-device = { version = "0.8", features = ["atmega2560", "rt"] }
avr-simulator = "0.6"
embedded-hal = "1"
smart-leds = "0.4"
panic-halt = "1"
proc-macro2 = "1"
quote = "1"
syn = { version = "2", features = ["full"] }
