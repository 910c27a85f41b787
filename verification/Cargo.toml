[package]
name = "snapfilething"
version = "0.1.0"
edition = "2021"
publish = false

[dependencies]
actix-cors = "=0.7.2"
actix-files = "=0.6.10"
actix-multipart = "=0.7.2"
actix-web = { version = "=4.18.1", default-features = false, features = ["macros"] }
anyhow = "1"
base64 = "=0.22.1"
chrono = { version = "=0.4.45", features = ["serde"] }
constant_time_eq = "=0.3.1"
dotenv = "0.15"
futures = "0.3"
futures-util = "0.3"
governor = "=0.6.3"
image = { version = "=0.25.10", default-features = false, features = ["png", "jpeg", "gif", "webp", "bmp", "tiff"] }
jsonwebtoken = "=9.3.1"
qoi = "0.4"
sanitize-filename = "=0.5.0"
serde = { version = "1", features = ["derive"] }
serde_json = "=1.0.154"
tempfile = "3"
thiserror = "1"
tokio = { version = "1", features = ["full"] }
tracing = "0.1"
tracing-subscriber = { version = "0.3", features = ["env-filter"] }
utoipa = { version = "=4.2.3", features = ["actix_extras", "chrono"] }
utoipa-swagger-ui = { version = "=7.1.0", features = ["actix-web", "vendored"] }
uuid = { version = "=1.29.0", features = ["v4"] }
walkdir = "2"
zip = { version = "=0.6.6", default-features = false, features = ["deflate"] }
