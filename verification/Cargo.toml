[package]
name = "stuck_in_a_loop"
version = "0.1.0"
edition = "2021"
publish = false

[dependencies]
serde = { version = "*", features = ["derive"] }
ron = "*"
