[package]
name = "media_graph"
version = "0.1.0"
edition = "2021"
publish = false

[dependencies]
gstreamer = "0.21"
gtk4 = "0.7"
