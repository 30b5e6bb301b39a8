[package]
name = "librustbelt"
version = "0.1.0"
edition = "2021"
publish = false

[dependencies]
anyhow = "=1.0.104"
clap = { version = "=4.6.7", features = ["derive"] }
ra_ap_hir = "=0.0.320"
ra_ap_ide = "=0.0.320"
ra_ap_ide_assists = "=0.0.320"
ra_ap_ide_db = "=0.0.320"
ra_ap_ide_ssr = "=0.0.320"
ra_ap_load-cargo = "=0.0.320"
ra_ap_project_model = "=0.0.320"
ra_ap_vfs = "=0.0.320"
schemars = "=1.2.3"
serde = { version = "=1.0.229", features = ["derive"] }
tmcp = "=0.6.0"
tokio = { version = "=1.54.1", features = ["sync", "rt", "macros"] }
tracing = "=0.1.44"
