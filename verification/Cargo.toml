[package]
name = "gbj"
version = "0.1.0"
edition = "2021"
publish = false

[dependencies]
bevy = { version = "0.13", default-features = false }
bevy_xpbd_2d = { version = "0.4", default-features = false, features = ["2d", "f32", "parry-f32"] }
console_error_panic_hook = "0.1"
iyes_progress = "0.11"
