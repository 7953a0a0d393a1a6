[package]
name = "enid"
version = "0.1.0"
edition = "2021"
publish = false

[dependencies]
arbitrary = "1"
borsh = "1"
bytemuck = "1"
quickcheck = { version = "1", default-features = false }
serde = "1"
slog = "2"
