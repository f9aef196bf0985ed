[package]
name = "voxel_core"
version = "0.1.0"
edition = "2021"
publish = false

[dependencies]
egui_sdl2_gl = { version = "=0.27.2", default-features = false, features = ["use_epi"] }
glm = "=0.2.3"
