[package]
name = "borg_the_spire"
version = "0.1.0"
edition = "2021"
publish = false

[dependencies]
seahash = "4"
serde = { version = "1", features = ["derive"] }
serde_json = "1"
rand = "0.8"
rand_chacha = "0.3"
rand_pcg = "0.3"
rand_distr = "0.4"
ordered-float = "2"
parking_lot = "0.11"
clap = "2"
scopeguard = "1"
smallvec = "1"
arrayvec = "0.7"
derivative = "2"
enum-map = "0.6"
array_ext = "0.4"
difference = "2"
