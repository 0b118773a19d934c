[package]
name = "stregsystemet"
version = "0.1.0"
edition = "2021"
publish = false

[dependencies]
lru = { version = "=0.18.5", default-features = false }
axum = "*"
tokio = { version = "*", features = ["macros", "rt-multi-thread", "net", "signal", "sync"] }
serde = { version = "*", features = ["derive"] }
serde_json = "*"
sqlx = { version = "*", default-features = false, features = ["runtime-tokio", "postgres"] }
tower = { version = "*", features = ["timeout", "util"] }
tower-http = { version = "*", features = ["fs"] }
maud = "*"
mime = "*"
mime_guess = "*"
bytes = "*"
http-body-util = "*"
httpdate = "*"
rand = "*"
