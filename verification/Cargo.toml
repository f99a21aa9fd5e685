[package]
name = "gotoo_pixel_engine"
version = "0.1.0"
edition = "2021"
publish = false

[dependencies]
png = "=0.18.1"
serde_json = "=1.0.154"
hound = "=3.5.1"
directories = "=6.0.0"
ab_glyph = "0.2"
fontdue = "0.9"
