[package]
name = "idle_bridge"
version = "0.1.0"
edition = "2021"
publish = false

[dependencies]
rand = "*"
wayland-client = "*"
wayland-protocols = { version = "*", features = ["client", "unstable"] }
dbus = "*"
dbus-crossroads = "*"
dbus-tokio = "*"
tokio = { version = "*", features = ["macros", "rt-multi-thread"] }
futures = "*"
log = "*"
pretty_env_logger = "*"
