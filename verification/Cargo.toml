[package]
name = "haldvance"
version = "0.1.0"
edition = "2021"
publish = false

[dependencies]
arrayvec = { version = "0.7", default-features = false }
const-default = { version = "*", features = ["derive"] }
enumflags2 = "*"
gba = { version = "*", default-features = false }
voladdress = "*"
