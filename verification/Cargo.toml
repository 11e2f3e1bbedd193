[package]
name = "kreep"
version = "0.1.0"
edition = "2021"
publish = false

[dependencies]
sled = "*"
aes-gcm-siv = "*"
serde_json = "*"
hex = "*"
rand_core = { version = "*", features = ["os_rng"] }
uuid = { version = "*", features = ["v4"] }
serde = { version = "*", features = ["derive"] }
clap = { version = "*", features = ["derive"] }
handlebars = "*"
rpassword = "*"
actix-web = "*"
actix-cors = "*"
