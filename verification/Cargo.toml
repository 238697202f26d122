[package]
name = "dbgen"
version = "0.1.0"
edition = "2021"
publish = false

[dependencies]
anyhow = "1"
chrono = { version = "=0.4.45", features = ["serde"] }
chrono-tz = { version = "=0.5.3", features = ["serde"] }
data-encoding = "=2.11.1"
flate2 = "1"
muldiv = "=0.2.1"
pbr = "1"
rand = "=0.7.3"
rand_chacha = "=0.2.2"
rand_hc = "=0.2.0"
rand_isaac = "=0.2.0"
rand_pcg = "=0.2.1"
rand_xorshift = "=0.2.0"
rayon = "1"
serde = "1"
serde_derive = "1"
shlex = "=0.1.1"
structopt = "0.3"
xz2 = "0.1"
zstd = "0.5"
