[package]
name = "llvm_cov_pretty"
version = "0.1.0"
edition = "2021"
publish = false

[dependencies]
askama_escape = "*"
camino = { version = "*", features = ["serde1"] }
clap = { version = "*", features = ["derive"] }
clap_complete = "*"
clap_mangen = "*"
color-eyre = "*"
ignore = "*"
minify-html = "*"
open = "*"
rayon = "*"
rustc-demangle = "*"
semver = "*"
serde = { version = "*", features = ["derive"] }
serde_json = "*"
syntect = { version = "*", default-features = false, features = ["parsing", "default-syntaxes", "regex-fancy"] }
time = { version = "*", features = ["formatting", "local-offset", "macros"] }
