[package]
name = "radiance_cascades"
version = "0.1.0"
edition = "2021"
publish = false

[dependencies]
atomic_float = "=1.1.0"
bytemuck = { version = "=1.25.2", features = ["derive"] }
glam = { version = "=0.30.10", features = ["bytemuck"] }
glow = "=0.14.2"
image = { version = "=0.25.10", default-features = false, features = ["png"] }
imgui = "=0.12.0"
imgui-glow-renderer = "=0.13.0"
imgui-sdl2-support = "=0.13.0"
load_file = "=1.0.1"
sdl2 = "=0.37.0"
stb_image = "=0.3.0"
strum = { version = "=0.28.0", features = ["derive"] }
tobj = "=4.0.5"
