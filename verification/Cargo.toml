[package]
name = "lazybar"
version = "0.1.0"
edition = "2021"
publish = false

[dependencies]
regex = "1"
aho-corasick = "1"
unicode-segmentation = "1"
config = { version = "0.15", default-features = false, features = ["toml"] }
serde = { version = "1", features = ["derive"] }
serde_json = "1"
clap = { version = "4", features = ["derive", "cargo"] }
clap_complete = "4"
tokio = { version = "1", features = ["full"] }
tokio-stream = { version = "0.1", features = ["net"] }
futures = "0.3"
anyhow = "1"
log = "0.4"
simple_logger = "5"
chrono = "0.4"
x11rb = { version = "0.13", features = ["randr", "render"] }
cairo-rs = { version = "*", features = ["xcb"] }
pango = "*"
pangocairo = "*"
glib = "*"
csscolorparser = "0.7"
lazy_static = "1"
signal-hook = "0.3"
rustix = { version = "1", features = ["system", "fs"] }
