[package]
name = "follow_audit"
version = "0.1.0"
edition = "2021"
publish = false

[dependencies]
anyhow = "1"
clap = "4"
copypasta = "*"
crossterm = "*"
open = "5"
ratatui = "*"
serde_json = "1"
