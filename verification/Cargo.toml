[package]
name = "uci_front"
version = "0.1.0"
edition = "2021"
publish = false

[dependencies]
crossbeam = "*"
crossterm = "*"
futures = "*"
ratatui = "*"
