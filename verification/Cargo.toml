[package]
name = "moveit_ros"
version = "0.1.0"
edition = "2021"
publish = false

[dependencies]
futures = "*"
nalgebra = "*"
urdf-rs = "*"
r2r = "0.9.5"
