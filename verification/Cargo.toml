[package]
name = "book_searcher_core"
version = "0.1.0"
edition = "2021"
publish = false

[dependencies]
tantivy = { version = "=0.21.1", features = ["zstd-compression"] }
# tantivy 0.21 builds on zstd-safe 6, which does not compile against later releases of zstd-sys
zstd-sys = "=2.0.9"
jieba-rs = "=0.6.8"
fast2s = "=0.3.1"
pinyin = "=0.10.0"
csv = "1"
serde = { version = "1", features = ["derive"] }
sysinfo = "0.29"
indicatif = "0.17"
log = "0.4"
env_logger = "0.11"
clap = { version = "4", features = ["derive"] }
actix-web = { version = "4", default-features = false, features = ["macros"] }
