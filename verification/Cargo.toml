[package]
name = "t5s3_epaper_ui"
version = "0.1.0"
edition = "2021"
publish = false

[dependencies]
heapless = { version = "=0.8.0", features = ["serde"] }
serde = { version = "=1.0.229", default-features = false, features = ["derive"] }
serde-json-core = "=0.6.0"
libm = "=0.2.16"
nmea = "=0.7.0"
embedded-graphics = "=0.8.2"
embedded-graphics-core = "=0.4.1"
tinybmp = "=0.6.0"
u8g2-fonts = { version = "=0.5.2", features = ["embedded_graphics_textstyle"] }
embassy-executor = "*"
embassy-futures = "=0.1.2"
embassy-net = { version = "*", features = ["dhcpv4", "dns", "medium-ethernet", "proto-ipv4", "tcp", "udp"] }
embassy-sync = "*"
embassy-time = "=0.5.1"
embedded-io-async = "0.7"
embedded-storage = "=0.3.2"
embedded-tls = { version = "=0.19.0", default-features = false, features = ["p384", "rsa"] }
rand_core = "=0.6.4"
allocator-api2 = "=0.3.1"
