[package]
name = "voxel_automaton"
version = "0.1.0"
edition = "2021"
publish = false

[dependencies]
# The viewer's engine. The library itself calls nothing of it.
bevy = { version = "=0.7.0", default-features = false, features = ["render", "bevy_winit", "x11"] }
# bevy's derive crates use syn's "full" feature without asking for it;
# darling's macros ask for it, which lets bevy 0.7 build.
darling = "=0.13.4"
