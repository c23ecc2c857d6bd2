[package]
name = "web-transport"
version = "0.1.0"
edition = "2021"
publish = false

[dependencies]
boring = "=5.4.0"
bytes = "=1.12.1"
flume = { version = "=0.12.0", default-features = false, features = ["async"] }
futures = "=0.3.34"
http = "=1.5.0"
js-sys = "=0.3.107"
kio = "=0.6.3"
quinn = { version = "=0.11.12", default-features = false, features = ["runtime-tokio", "rustls-ring", "qlog"] }
rustls = { version = "=0.23.46", default-features = false, features = ["std", "ring"] }
rustls-pki-types = "=1.15.1"
thiserror = "=2.0.21"
tokio = { version = "=1.54.1", features = ["net", "rt", "time", "macros", "io-util", "sync"] }
tokio-quiche = "=0.20.0"
tracing = "=0.1.44"
url = "=2.5.8"
wasm-bindgen = "=0.2.130"
wasm-bindgen-futures = "=0.4.80"
web-sys = { version = "=0.3.107", features = ["ReadableStream", "ReadableStreamDefaultReader", "ReadableStreamReadResult", "WebTransport", "WebTransportBidirectionalStream", "WebTransportCloseInfo", "WebTransportDatagramDuplexStream", "WebTransportError", "WebTransportErrorSource", "WebTransportReceiveStream", "WebTransportSendStream", "WebTransportSendStreamOptions", "WritableStream", "WritableStreamDefaultWriter"] }
web-transport-proto = "=0.6.3"
web-transport-ws = "=0.3.5"
