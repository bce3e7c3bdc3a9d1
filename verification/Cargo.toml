[package]
name = "rcat-voice"
version = "0.2.0"
edition = "2021"
publish = false

[dependencies]
anyhow = "1"
async-openai = { version = "0.32", default-features = false, features = ["chat-completion"] }
async-trait = "0.1"
bytes = "1"
cpal = "0.17"
crossbeam-queue = "0.3"
futures = "0.3"
futures-util = "0.3"
http-body-util = "0.1"
hyper = { version = "1", features = ["server", "http1"] }
hyper-util = { version = "0.1", features = ["tokio"] }
jieba-rs = "0.8"
ort = { version = "2.0.0-rc.10", default-features = false, features = ["std"] }
reqwest = { version = "0.12", default-features = false, features = ["json", "stream"] }
rodio = { version = "0.21", default-features = false, features = ["playback"] }
serde = { version = "1", features = ["derive"] }
serde_json = "1"
smallvec = "1"
smart-turn-rs = "*"
tokio = { version = "1", features = ["full"] }
tokio-util = "0.7"
tracing = "0.1"
tracing-subscriber = { version = "0.3", features = ["env-filter"] }
unicode-segmentation = "1"
wav_io = "*"
