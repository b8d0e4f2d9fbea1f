[package]
name = "robot_arena"
version = "0.1.0"
edition = "2021"
publish = false

[dependencies]
bean-script = "*"
itertools = "*"
raylib = "5.0"
