[package]
name = "logo_loader"
version = "0.1.0"
edition = "2021"
publish = false

[dependencies]
base64 = "0.22"
chrono = "0.4"
clap = { version = "4", features = ["derive"] }
fern = "0.7"
futures = "0.3"
image = { version = "0.25", default-features = false, features = ["png", "jpeg", "gif", "webp", "bmp", "ico"] }
indicatif = "0.17"
kmeans_colors = { version = "0.6", default-features = false, features = ["palette_color"] }
log = "0.4"
once_cell = "1"
oxipng = { version = "9", default-features = false }
palette = "0.7"
regex = "1"
reqwest = { version = "0.12", default-features = false, features = ["json", "cookies", "rustls-tls"] }
scraper = "0.20"
serde = { version = "1", features = ["derive"] }
serde_json = "1"
tokio = { version = "1", features = ["full"] }
toml = "0.8"
url = "2"
urlencoding = "2"
visioncortex = "0.8"
vtracer = "0.6"
