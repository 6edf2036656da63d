[package]
name = "nix_options_doc"
version = "0.1.0"
edition = "2021"
publish = false

[dependencies]
clap = { version = "=4.6.7", features = ["derive"] }
comrak = { version = "=0.57.0", default-features = false, features = ["bon"] }
csv = "=1.4.0"
env_logger = "=0.11.11"
gix = { version = "=0.90.0", default-features = false, features = ["blocking-network-client", "worktree-mutation", "interrupt", "sha1"] }
html-escape = "=0.2.15"
indicatif = "=0.18.6"
log = "=0.4.34"
rayon = "=1.12.0"
regex = "=1.13.1"
rnix = "=0.15.0"
serde = { version = "=1.0.229", features = ["derive"] }
serde_json = { version = "=1.0.154", features = ["preserve_order"] }
tempfile = "=3.27.0"
textwrap = "=0.16.4"
thiserror = "=2.0.21"
walkdir = "=2.5.0"
