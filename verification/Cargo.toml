[package]
name = "cargo_monorepo"
version = "0.1.0"
edition = "2021"
publish = false

[dependencies]
anyhow = "1"
atty = "0.2"
aws-config = { version = "*", default-features = false, features = ["rustls", "rt-tokio"] }
aws-sdk-ecr = { version = "*", default-features = false, features = ["rustls", "rt-tokio"] }
aws-sdk-s3 = { version = "*", default-features = false, features = ["rustls", "rt-tokio"] }
base64 = "=0.13.1"
cargo_metadata = "*"
clap = "2"
env_logger = { version = "*", default-features = false }
fs_extra = "1"
git2 = { version = "*", default-features = false }
glob = "0.3"
guppy = "*"
itertools = "*"
log = "0.4"
regex = "=1.13.1"
semver = { version = "1", features = ["serde"] }
serde = { version = "1", features = ["derive"] }
serde_json = "1"
serde_path_to_error = "0.1"
sha2 = "=0.10.9"
tera = { version = "1", default-features = false }
termcolor = "1"
thiserror = "1"
tokio = { version = "1", features = ["rt"] }
toml = "*"
walkdir = "2"
zip = { version = "*", default-features = false, features = ["deflate"] }
