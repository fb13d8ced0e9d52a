[package]
name = "dma_streamer"
version = "0.1.0"
edition = "2021"
publish = false

[dependencies]
display-interface = "*"
