[package]
name = "arena_combat"
version = "0.1.0"
edition = "2021"
publish = false

[dependencies]
bevy = { version = "=0.16.1", default-features = false, features = ["std", "bevy_window"] }
avian2d = { version = "=0.3.1", default-features = false, features = ["2d", "f32", "parry-f32"] }
