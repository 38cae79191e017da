[package]
name = "nix-update-git"
version = "0.1.0"
edition = "2021"
publish = false

[dependencies]
anstyle = "1"
anyhow = "1"
base64 = "0.22"
bstr = "1"
clap = { version = "4", features = ["derive"] }
flate2 = "1"
gix-quote = "*"
globset = "0.4"
nix-base32 = "*"
nix-nar = "*"
patchkit = "*"
rayon = "1"
regex = "1"
rnix = "*"
rowan = "*"
semver = "1"
serde = { version = "1", features = ["derive"] }
serde_json = "1"
sha2 = "0.10"
tar = "0.4"
tempfile = "3"
ureq = "3"
versions = "*"
walkdir = "2"
