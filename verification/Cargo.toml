[package]
name = "cursorlight"
version = "0.4.1"
edition = "2021"
publish = false

[dependencies]
anyhow = "1"
btleplug = "*"
chrono = "0.4"
clap = { version = "4", features = ["derive"] }
embassy-executor = "*"
embassy-futures = "*"
embassy-sync = "*"
embassy-time = "*"
embedded-storage = "0.3"
env_logger = "0.11"
esp-alloc = "*"
esp-backtrace = "*"
esp-bootloader-esp-idf = "*"
esp-hal = "*"
esp-println = "*"
esp-radio = "*"
esp-rtos = "*"
esp-storage = "*"
heapless = "*"
log = "0.4"
serde_json = "1"
sha2 = "*"
static_cell = "2"
tokio = { version = "1", features = ["full"] }
trouble-host = "*"
uuid = "1"
