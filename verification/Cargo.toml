[package]
name = "particle_world"
version = "0.1.0"
edition = "2021"
publish = false

[dependencies]
ecs = "*"
rand = "*"
piston = "*"
piston2d-graphics = "*"
pistoncore-glutin_window = "*"
piston2d-opengl_graphics = "*"
