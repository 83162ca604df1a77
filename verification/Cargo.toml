[package]
name = "bluetooth_mouse"
version = "0.1.0"
edition = "2021"
publish = false

[dependencies]
bluer = { version = "0.17", features = ["bluetoothd", "id", "l2cap", "rfcomm"] }
btmgmt = "0.2"
dbus = { version = "0.9", features = ["vendored"] }
libc = "0.2"
tokio = { version = "1", features = ["full"] }
