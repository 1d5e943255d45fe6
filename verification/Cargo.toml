[package]
name = "openapi_to_hurl"
version = "0.1.0"
edition = "2021"
publish = false

[dependencies]
anyhow = "=1.0.104"
clap = { version = "=4.6.7", features = ["derive"] }
hurl_core = "=4.3.0"
hurlfmt = "=4.3.0"
log = "=0.4.34"
oas3 = "=0.22.0"
regex = "=1.13.1"
serde_json = "=1.0.151"
stderrlog = "=0.6.0"
