[package]
name = "magrathea"
version = "0.1.0"
edition = "2021"
publish = false

[dependencies]
anyhow = "=1.0.104"
euclid = "=0.22.14"
hex = "=0.4.3"
kludgine = "=0.11.0"
image = { version = "=0.23.14", default-features = false, features = ["png"] }
noise = { version = "=0.7.0", default-features = false }
palette = { version = "=0.5.0", default-features = false, features = ["std"] }
rand = { version = "=0.8.8", default-features = false }
rand_chacha = { version = "=0.3.1", default-features = false }
sorted-vec = "=0.5.2"
structopt = "=0.3.26"
uuid = { version = "=0.8.2", features = ["v4"] }

[dev-dependencies]
spade = "=1.8.2"
