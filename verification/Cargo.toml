[package]
name = "fit2gpx"
version = "0.1.0"
edition = "2021"
publish = false

[dependencies]
clap = { version = "*", features = ["derive", "env"] }
env_logger = "*"
fit_file = "*"
geo-types = "*"
gpx = "*"
log = "*"
rayon = "*"
srtm_reader = "*"
time = "*"
