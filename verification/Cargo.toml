[package]
name = "piccolo"
version = "0.1.0"
edition = "2021"
publish = false

[dependencies]
gtk4 = { version = "0.10", features = ["v4_12"] }
libadwaita = { version = "0.8", features = ["v1_7"] }
ashpd = "0.11"
gettext-rs = "0.7"
prisma = "0.1"
angular-units = "0.2"
oklab = "1"
color = "0.3"
strum = { version = "0.27", features = ["derive"] }
