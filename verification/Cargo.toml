[package]
name = "emoji_glyphs"
version = "0.1.0"
edition = "2021"
publish = false

[dependencies]
emojis = "=0.1.2"
ttf-parser = "=0.12.3"
powerpack = "=0.8.0"
