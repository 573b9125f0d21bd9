[package]
name = "colourspace_link"
version = "0.1.0"
edition = "2021"
publish = false

[dependencies]
quick-xml = "0.31"
argh = "0.1"
sdl2 = "0.37"
tinyfiledialogs = "3"
