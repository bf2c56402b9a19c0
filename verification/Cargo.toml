[package]
name = "bitmap_render"
version = "0.1.0"
edition = "2021"
publish = false

[dependencies]
axum = "0.8"
brotli = "8"
gloo-net = "0.6"
image = { version = "0.25", default-features = false, features = ["png"] }
js-sys = "0.3"
lru = "*"
reqwest = { version = "0.12", default-features = false, features = ["json", "rustls-tls"] }
serde = { version = "1", features = ["derive"] }
sqlx = { version = "0.8", default-features = false, features = ["runtime-tokio", "postgres"] }
tokio = { version = "1", features = ["macros", "net", "rt-multi-thread", "sync"] }
tower-http = { version = "0.6", features = ["cors", "fs"] }
tower_governor = "0.8"
tracing = "0.1"
tracing-subscriber = { version = "0.3", features = ["env-filter"] }
wasm-bindgen = "0.2"
wasm-bindgen-futures = "0.4"
web-sys = { version = "0.3", features = ["CanvasRenderingContext2d", "HtmlCanvasElement"] }
yew = { version = "0.21", features = ["csr"] }
