[package]
name = "package_json"
version = "0.1.0"
edition = "2021"
publish = false

[dependencies]
deno_semver = "*"
serde_json = { version = "*", features = ["preserve_order"] }
indexmap = "*"
deno_path_util = "*"
url = "*"
