[package]
name = "xianscan_device"
version = "0.1.0"
edition = "2021"
publish = false

[dependencies]
anyhow = "=1.0.104"
metal = "=0.33.0"
num_cpus = "=1.17.0"
ort = { version = "=2.0.0-rc.11", default-features = false, features = ["std", "load-dynamic", "cuda", "coreml", "directml", "openvino"] }
rusqlite = { version = "=0.41.1", default-features = false }
serde_json = "=1.0.154"
tracing = "=0.1.44"
windows = { version = "=0.58.0", features = ["Win32_Graphics_Dxgi", "Win32_Graphics_Dxgi_Common"] }
