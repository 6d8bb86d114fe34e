[package]
name = "usmm"
version = "0.1.0"
edition = "2021"
publish = false

[dependencies]
configparser = "=3.3.0"
uuid = { version = "=1.29.0", features = ["v4"] }
toml = "=1.1.8"
chrono = "=0.4.45"
zip = { version = "=9.2.2", default-features = false, features = ["deflate"] }
image = { version = "=0.25.10", default-features = false, features = ["png"] }
sdl2 = "=0.37.0"
imgui = "=0.12.0"
imgui-glow-renderer = "=0.13.0"
imgui-sdl2-support = "=0.13.0"
rfd = { version = "=0.17.2", default-features = false, features = ["xdg-portal"] }
