[package]
name = "p2p_shipyard"
version = "0.1.0"
edition = "2021"
publish = false

[dependencies]
sha256 = { version = "1", default-features = false }
mime_guess = "2"
url2 = "0.0.6"
url = "2"
base64 = "0.22"
convert_case = "0.6"
serde = { version = "1", features = ["derive"] }
serde_json = "1"
thiserror = "1"
log = "0.4"
anyhow = "1"
portpicker = "0.1"
local-ip-address = "*"
clap = { version = "4", features = ["derive"] }
zip = { version = "2", default-features = false }
tokio = { version = "1", features = ["rt", "time", "macros"] }
async-std = "1"
dialoguer = "*"
include_dir = "*"
tempdir = "*"
ctrlc = "*"
