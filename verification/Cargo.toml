[package]
name = "particle_shower"
version = "0.1.0"
edition = "2021"
publish = false

[dependencies]
glium = "0.30"
rand = "0.7"
scoped_threadpool = "0.1"
