[package]
name = "anchor_cnft_transfer"
version = "0.1.0"
edition = "2021"
publish = false

[dependencies]
anchor-lang = "=0.31.2"
mpl-bubblegum = "=4.0.0"
solana-program = "=3.0.0"
spl-account-compression = { version = "=1.0.0", features = ["cpi"] }
