[package]
name = "vuer"
version = "0.1.0"
edition = "2021"
publish = false

[dependencies]
oxc_allocator = "=0.144.0"
oxc_parser = "=0.144.0"
oxc_ast = { version = "=0.144.0", features = ["serialize"] }
oxc_ast_visit = "=0.144.0"
oxc_span = "=0.144.0"
oxc_syntax = "=0.144.0"
oxc_estree = { version = "=0.144.0", features = ["serialize"] }
serde = { version = "=1.0.229", features = ["derive"] }
serde_json = { version = "=1.0.154", features = ["preserve_order"] }
serde_yaml = "=0.9.34"
clap = { version = "=4.6.7", features = ["derive"] }
miette = { version = "=7.6.0", features = ["fancy"] }
thiserror = "=2.0.21"
ignore = "=0.4.34"
rayon = "=1.12.0"
