[package]
name = "osu_link"
version = "0.1.0"
edition = "2021"
publish = false

[dependencies]
anyhow = "*"
chrono = "0.4"
dirs = "*"
libosu = "*"
num_cpus = "*"
rand = "0.8"
rayon = "*"
rusqlite = { version = "*", features = ["bundled"] }
sha2 = "0.10"
walkdir = "*"
whoami = "*"
