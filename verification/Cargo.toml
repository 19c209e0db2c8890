[package]
name = "freemdu_gateway"
version = "0.1.0"
edition = "2021"
publish = false

[dependencies]
anyhow = { version = "1", default-features = false }
embassy-executor = "=0.9.1"
embassy-futures = "=0.1.2"
embassy-net = { version = "=0.7.1", features = ["dhcpv4", "dhcpv4-hostname", "dns", "tcp", "udp", "medium-ethernet", "proto-ipv4"] }
embassy-sync = "=0.7.2"
embassy-time = "=0.5.1"
embedded-io-async = "=0.7.0"
esp-alloc = "=0.9.0"
esp-backtrace = { version = "=0.18.1", features = ["esp32c3", "panic-handler", "println"] }
esp-bootloader-esp-idf = { version = "=0.4.0", features = ["esp32c3"] }
esp-hal = { version = "=1.0.0", features = ["esp32c3", "unstable"] }
esp-println = { version = "=0.16.1", features = ["esp32c3", "log-04"] }
esp-radio = { version = "=0.17.0", features = ["esp32c3", "wifi"] }
esp-rtos = { version = "=0.2.0", features = ["esp32c3", "embassy", "esp-alloc", "esp-radio"] }
log = "=0.4.35"
mcutie = { version = "=0.3.0", features = ["homeassistant"] }
static_cell = "=2.1.1"
tokio = { version = "=1.54.1", features = ["macros", "rt"] }
env_logger = "=0.11.11"
