[package]
name = "rmf_site_picking"
version = "0.1.0"
edition = "2021"
publish = false

[dependencies]
bevy_ecs = "=0.16.1"
bevy_app = "=0.16.1"
bevy_derive = "=0.16.1"
bevy_state = "=0.16.1"
bevy_input = "=0.16.1"
bevy_math = "=0.16.1"
bevy_transform = "=0.16.1"
bevy_picking = { version = "=0.16.1", default-features = false }
egui = "=0.31.1"
bevy_impulse = "=0.2.0"
