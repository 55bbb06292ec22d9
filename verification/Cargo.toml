[package]
name = "cached_asset_proxy"
version = "0.1.0"
edition = "2021"
publish = false

[dependencies]
zip = { version = "0.6", default-features = false, features = ["deflate"] }
serde = { version = "1", features = ["derive"] }
serde_json = "1"
log = "0.4"
env_logger = "0.9"
dotenv = "0.15"
config = { version = "0.11", default-features = false }
reqwest = { version = "0.11", default-features = false, features = ["gzip"] }
warp = { version = "0.3", default-features = false }
tokio = { version = "1", features = ["macros", "rt-multi-thread"] }
r2d2_redis = "0.14"
tree_magic = "0.2"
