[package]
name = "xxkb"
version = "0.2.0"
edition = "2021"
publish = false

[dependencies]
globset = "=0.4.21"
indexmap = "=2.14.2"
serde = { version = "=1.0.229", features = ["derive"] }
toml = "=0.8.23"
figment = { version = "=0.10.19", features = ["toml", "env"] }
tempfile = "=3.27.0"
dirs = "=5.0.1"
shellexpand = "=3.1.2"
thiserror = "=1.0.69"
anyhow = "=1.0.104"
tracing = "=0.1.44"
tracing-subscriber = { version = "=0.3.23", features = ["env-filter"] }
tokio = { version = "=1.54.1", features = ["rt", "rt-multi-thread", "macros", "sync", "net"] }
zbus = { version = "=4.4.0", default-features = false, features = ["tokio"] }
futures = "=0.3.34"
async-trait = "=0.1.92"
parking_lot = "=0.12.5"
x11rb = { version = "=0.13.2", features = ["xkb", "randr"] }
notify-debouncer-mini = "=0.4.1"
resvg = "=0.44.0"
usvg = "=0.44.0"
tiny-skia = "=0.11.4"
image = { version = "=0.25.10", default-features = false, features = ["png", "jpeg", "bmp"] }
rodio = { version = "=0.19.0", default-features = false, features = ["symphonia-wav"] }
gtk4 = "=0.9.7"
libadwaita = { version = "=0.7.2", features = ["v1_4"] }
glib = "=0.20.12"
