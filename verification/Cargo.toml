[package]
name = "analogue_pal_tool"
version = "0.1.0"
edition = "2021"
publish = false

[dependencies]
chrono = "0.4"
clap = { version = "4", features = ["derive"] }
colored = "2"
fern = "0.6"
glob = "0.3"
image = "0.24"
log = "0.4"
png = "0.17"
rayon = "1"
tera = "1"
thiserror = "1"
