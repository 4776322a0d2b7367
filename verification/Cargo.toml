[package]
name = "raytracing"
version = "0.1.0"
edition = "2021"
publish = false

[dependencies]
anyhow = "1"
clap = "2"
png = "0.16"
rand = "0.7"
rand_distr = "0.2"
rayon = "1"
