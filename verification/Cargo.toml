[package]
name = "host_notify"
version = "0.1.0"
edition = "2021"
publish = false

[dependencies]
anyhow = "=1.0.104"
sysinfo = "=0.39.6"
tokio = { version = "=1.53.2", features = ["macros", "rt-multi-thread", "time", "signal"] }
tokio-stream = "=0.1.19"
zbus = { version = "=4.4.0", default-features = false, features = ["tokio"] }
zvariant = "4"
