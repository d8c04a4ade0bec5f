[package]
name = "datum_connect"
version = "0.1.0"
edition = "2021"
publish = false

[dependencies]
axum = { version = "0.7", default-features = false, features = ["http1", "json", "query", "tokio"] }
chrono = { version = "=0.4.45", default-features = false, features = ["std", "clock"] }
clap = { version = "4", features = ["derive", "env"] }
data-encoding = "=2.11.1"
dioxus = { version = "0.6", default-features = false, features = ["macro", "html", "hooks", "signals", "router"] }
dirs-next = "2"
dotenv = "0.15"
gethostname = "1"
http = "1"
humantime = "2"
k8s-openapi = { version = "0.26", default-features = false, features = ["latest"] }
kube = { version = "2", default-features = false, features = ["client", "rustls-tls", "ring"] }
libc = "0.2"
open = "5"
openidconnect = { version = "4", default-features = false, features = ["reqwest", "rustls-tls"] }
rand = "=0.9.5"
reqwest = { version = "0.12", default-features = false, features = ["rustls-tls", "json"] }
rustls = { version = "0.23", default-features = false, features = ["ring", "std"] }
semver = "=1.0.28"
serde = { version = "1", features = ["derive"] }
serde_json = "=1.0.154"
serde_yml = "0.0.12"
tokio = { version = "1", features = ["macros", "rt-multi-thread", "net", "time", "sync", "signal", "process", "fs"] }
tracing = "0.1"
tracing-subscriber = { version = "0.3", features = ["env-filter"] }
url = "=2.5.8"
z32 = "=1.3.0"
