[package]
name = "nabu"
version = "0.1.0"
edition = "2021"
publish = false

[dependencies]
actix-web = "4"
atom_syndication = "0.12"
log = "0.4"
serde = { version = "1", features = ["derive"] }
serde_json = "1"
