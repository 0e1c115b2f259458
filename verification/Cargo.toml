[package]
name = "mal_plan"
version = "0.1.0"
edition = "2021"
publish = false

[dependencies]
serde = "*"
serde_json = "*"
attohttpc = { version = "*", default-features = false }
console = "*"
directories = "*"
indicatif = "*"
