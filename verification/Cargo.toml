[package]
name = "map_in_place"
version = "0.1.0"
edition = "2021"
publish = false
