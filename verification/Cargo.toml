[package]
name = "whatstauri"
version = "0.2.0"
edition = "2021"
publish = false

[dependencies]
toml = "=0.8.23"
url = "=2.5.8"
png = "=0.17.16"
ab_glyph = "=0.2.32"
dirs = "=7.0.0"
notify-rust = "=4.18.2"
