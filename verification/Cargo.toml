[package]
name = "peer_sync"
version = "0.1.0"
edition = "2021"
publish = false

[dependencies]
rand = "=0.9.5"
tokio = { version = "=1.54.1", features = ["sync", "rt-multi-thread", "net", "time"] }
futures-util = "=0.3.34"
tokio-tungstenite = { version = "=0.26.2", features = ["native-tls"] }
bevy = { version = "=0.17.3", default-features = false, features = ["std", "bevy_log", "bevy_asset", "bevy_color", "bevy_mesh", "bevy_window", "bevy_pbr", "bevy_animation"] }
avian3d = { version = "=0.4.1", default-features = false, features = ["3d", "f32", "parry-f32", "debug-plugin"] }
tokio-tungstenite-wasm = "=0.9.0"
wasm-bindgen-futures = "=0.4.79"
