[package]
name = "gsplat"
version = "0.1.0"
edition = "2021"
publish = false
