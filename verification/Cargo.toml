[package]
name = "drydoc"
version = "0.1.0"
edition = "2021"
publish = false

[dependencies]
toml = "*"
fs-err = "*"
minijinja = { version = "*", features = ["loader"] }
minijinja-contrib = "*"
proc-macro2 = "*"
quote = "*"
syn = "*"
