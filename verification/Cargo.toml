[package]
name = "export_findmy"
version = "0.1.0"
edition = "2021"
publish = false

[dependencies]
async-trait = "0.1"
libc = "0.2"
plist = "1"
rand = "0.9"
sha2 = "0.10"
tokio = { version = "1", features = ["macros", "rt-multi-thread", "sync"] }
uuid = { version = "1", features = ["v4"] }
