[package]
name = "pulseaudio_applet"
version = "0.1.0"
edition = "2021"
publish = false

[dependencies]
zbus = "*"
gtk = "*"
relm = "*"
relm-derive = "*"
