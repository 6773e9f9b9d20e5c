[package]
name = "solscatter"
version = "0.1.0"
edition = "2021"
publish = false

[dependencies]
solana-maths = "=0.1.2"
solana-program = "=1.9.29"
anchor-lang = "=0.24.2"
anchor-spl = "=0.24.2"
spl-token = { version = "=3.3.0", features = ["no-entrypoint"] }
quarry-mine = { version = "=5.2.0", features = ["cpi"] }
yi = { version = "=0.4.0", features = ["cpi"] }
bytemuck = "=1.25.2"
switchboard-v2 = "0.1"
