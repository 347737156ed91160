[package]
name = "pasta_srs"
version = "0.1.0"
edition = "2021"

[dependencies]
ark-ec = "=0.4.2"
ark-ff = "=0.4.2"
ark-poly = "=0.4.2"
ark-serialize = "=0.4.2"
ark-pallas = "0.4"
ark-vesta = "0.4"
blake2 = "0.10"
rayon = "1"
