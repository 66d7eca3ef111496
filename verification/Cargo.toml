[package]
name = "limpid_output"
version = "0.1.0"
edition = "2021"
publish = false

[dependencies]
base64 = "=0.22.1"
libc = "=0.2.191"
opentelemetry-proto = { version = "=0.29.0", default-features = false, features = ["gen-tonic", "logs", "with-serde"] }
prost = "=0.13.5"
rdkafka = "=0.37.0"
reqwest = { version = "=0.12.28", default-features = false, features = ["rustls-tls-manual-roots-no-provider"] }
rustls = { version = "=0.23.46", default-features = false, features = ["std", "tls12"] }
serde_json = "=1.0.154"
tokio = { version = "=1.54.1", features = ["rt", "net", "io-util", "time", "sync", "macros"] }
tokio-rustls = { version = "=0.26.6", default-features = false }
tonic = { version = "=0.12.3", features = ["tls", "tls-native-roots"] }
windows-sys = { version = "=0.61.2", features = ["Win32_Foundation", "Win32_Storage_FileSystem", "Win32_System_Console", "Win32_System_IO"] }
