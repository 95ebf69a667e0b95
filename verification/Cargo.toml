[package]
name = "rpn_calc"
version = "0.1.0"
edition = "2021"
publish = false

[dependencies]
heapless = "0.9"
defmt = "*"
defmt-rtt = "*"
panic-probe = "*"
display-interface-spi = "*"
embassy-embedded-hal = "*"
embassy-executor = "*"
embassy-rp = "*"
embassy-sync = "*"
embassy-time = "*"
embedded-graphics = "*"
st7565 = "*"
