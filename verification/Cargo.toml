[package]
name = "praline"
version = "0.1.0"
edition = "2021"
publish = false

[dependencies]
include_dir = "*"
indexmap = "*"
ratatui = "*"
ratatui-explorer = "*"
tui-input = "*"
