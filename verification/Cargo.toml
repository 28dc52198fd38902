[package]
name = "anica_core"
version = "0.1.0"
edition = "2021"
publish = false

[dependencies]
serde_json = "1"
url = "2"
hound = "3"
cpal = "0.15"
thiserror = "2"
log = "0.4"
