[package]
name = "diorama"
version = "0.1.0"
edition = "2021"
publish = false

[dependencies]
rand = "=0.9.5"
bevy = { version = "=0.17.3", default-features = false, features = ["std", "bevy_state", "bevy_window", "bevy_render", "bevy_core_pipeline", "bevy_pbr", "bevy_anti_alias", "bevy_picking", "bevy_mesh_picking_backend", "bevy_ui", "bevy_text", "bevy_gizmos", "bevy_color"] }
avian3d = "0.4"
bevy-tnua = "0.26"
bevy-tnua-avian3d = "0.8"
