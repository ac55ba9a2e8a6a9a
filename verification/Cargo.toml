[package]
name = "chord"
version = "0.1.0"
edition = "2021"
publish = false

[dependencies]
async-std = { version = "=1.13.2", features = ["attributes"] }
async-trait = "=0.1.92"
chrono = "=0.4.45"
csv = "=1.4.0"
dynamic_reload = "=0.10.0"
futures = "=0.3.34"
getopts = "=0.2.24"
handlebars = "=6.4.4"
log = "=0.4.34"
md5 = "=0.8.1"
rlua = "=0.17.1"
rlua_serde = "=0.4.0"
serde = { version = "=1.0.229", features = ["derive"] }
serde_json = "=1.0.154"
serde_yaml = "=0.8.26"
structopt = "=0.3.26"
surf = { version = "=2.3.2", default-features = false, features = ["h1-client-rustls"] }
tide = "=0.16.0"
urlencoding = "=2.1.3"
validator = { version = "=0.21.0", features = ["derive"] }
