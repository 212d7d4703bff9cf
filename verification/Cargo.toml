[package]
name = "vis_dump"
version = "0.1.0"
edition = "2021"
publish = false

[dependencies]
radix_fmt = "=1.0.0"
mwalib = { version = "=3.0.2", features = ["cfitsio-static"] }
anyhow = "=1.0.104"
structopt = "=0.3.26"
serde = { version = "=1.0.229", features = ["derive"] }
