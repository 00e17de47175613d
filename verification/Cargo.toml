[package]
name = "gtm_okr"
version = "0.1.0"
edition = "2021"
publish = false

[dependencies]
anyhow = "1"
chrono = "0.4"
clap-verbosity-flag = "0.3"
confy = "0.4"
ctrlc = "3"
log = "0.4"
reqwest = { version = "0.11", features = ["json"] }
serde = { version = "1", features = ["derive"] }
simplelog = "0.12"
structopt = "0.3"
text_io = "0.1"
tokio = { version = "1", features = ["full"] }
