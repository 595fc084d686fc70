[package]
name = "frb_codegen"
version = "0.1.0"
edition = "2021"
publish = false

[dependencies]
convert_case = "*"
toml = "*"
syn = { version = "1", features = ["full"] }
quote = "1"
serde = { version = "1", features = ["derive"] }
structopt = "0.3"
tempfile = "*"
