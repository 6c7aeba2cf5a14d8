[package]
name = "websocket_nvim"
version = "0.1.0"
edition = "2021"
publish = false

[dependencies]
uuid = { version = "=1.29.0", features = ["v4"] }
url = "=2.5.8"
tokio-tungstenite = "=0.21.0"
tokio = { version = "=1.54.1", features = ["rt-multi-thread", "sync", "net", "macros"] }
futures-util = { version = "=0.3.34", features = ["sink"] }
nvim-oxi = { version = "=0.5.1", features = ["libuv", "mlua", "neovim-0-9"] }
mlua = { version = "=0.9.9", features = ["luajit", "module"] }
serde = { version = "=1.0.229", features = ["derive"] }
log = "=0.4.35"
log4rs = "=1.4.0"
log-panics = "=2.1.0"
lazy_static = "=1.5.1"
parking_lot = "=0.12.5"
