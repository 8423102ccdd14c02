[package]
name = "lumd"
version = "0.1.0"
edition = "2021"
publish = false

[dependencies]
toml = "*"
nix = { version = "*", features = ["user"] }
signal-hook = "*"
slog = "*"
slog-async = "*"
slog-term = "*"
xdg = "*"
