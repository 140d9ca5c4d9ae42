[package]
name = "past_a_box"
version = "0.1.0"
edition = "2021"
publish = false

[dependencies]
bincode = "=1.3.3"
serde = { version = "=1.0.229", features = ["derive"] }
log = "=0.4.34"
env_logger = "=0.6.2"
os_pipe = "=0.8.2"
clap = "=2.34.0"
config = "=0.9.3"
lazy_static = "=1.5.1"
libc = "=0.2.191"
wayland-client = "=0.23.6"
wayland-protocols = { version = "=0.23.6", features = ["client", "unstable_protocols"] }
clipboard = "=0.5.0"
conrod_core = "=0.65.0"
conrod_glium = "=0.65.0"
conrod_winit = "=0.65.0"
glium = "=0.23.0"
find_folder = "=0.3.0"
