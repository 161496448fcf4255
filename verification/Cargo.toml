[package]
name = "triage"
version = "0.1.0"
edition = "2021"
publish = false

[dependencies]
alpm = "*"
alpm-utils = "*"
color-eyre = "0.6"
crossterm = "0.27"
ratatui = "0.26"
