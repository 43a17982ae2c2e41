[package]
name = "invaders"
version = "0.1.0"
edition = "2021"
publish = false

[dependencies]
rand = "=0.8.8"
bevy = { version = "=0.7.0", default-features = false, features = ["bevy_core_pipeline", "bevy_render", "bevy_sprite", "png"] }
# Not called by any code: it switches on the `full` feature of `syn` for the
# build, which the derive crates of bevy 0.7 use without asking for it.
pin-project-internal = "=1.0.12"
